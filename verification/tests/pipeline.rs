use seqrepo::attributes::{AttributeMap, AttributeValue};
use seqrepo::import::{
    import, import_step, ImportAction, ImportEvent, ImportState, ImportSummary, PathKind,
    SeqRepoImportError, SourceLayout,
};
use seqrepo::keys::{ErrorKind, InputError};
use seqrepo::lookup::{
    get_sequence_id_from_alias, get_sequence_metadata, lookup_step, resolve_alias, LookupState,
    LookupStep, SeqRepoLookupError, SequenceAlias, SequenceMetadata, StoreRead,
};
use seqrepo::records::{DynamodbConversionError, FastadirEntry, SeqAlias};
use seqrepo::store::{PutItem, StoreError, StoreErrorKind};
use std::collections::BTreeMap;

// A store in memory: items by partition key and sort key.
struct MemoryStore {
    items: BTreeMap<(String, String), AttributeMap>,
    puts: usize,
    fail_put_number: Option<usize>,
}

impl MemoryStore {
    fn new() -> MemoryStore {
        MemoryStore { items: BTreeMap::new(), puts: 0, fail_put_number: None }
    }

    fn put(&mut self, put: PutItem) -> Result<(), StoreError> {
        self.puts += 1;
        if self.fail_put_number == Some(self.puts) {
            return Err(unreachable_backend());
        }
        self.items
            .insert((put.key.partition_key.clone(), put.key.sort_key.clone()), put.attributes);
        Ok(())
    }

    fn read(&self, read: &StoreRead) -> Vec<AttributeMap> {
        match read {
            StoreRead::Exact(key) => self
                .items
                .get(&(key.partition_key.clone(), key.sort_key.clone()))
                .map(|item| item.duplicate())
                .into_iter()
                .collect(),
            StoreRead::AliasesOf(seq_id) => self
                .items
                .iter()
                .filter(|(key, item)| {
                    key.0 == "seqalias"
                        && item.get("seq_id") == Some(&AttributeValue::S(seq_id.clone()))
                })
                .map(|(_, item)| item.duplicate())
                .collect(),
        }
    }
}

fn unreachable_backend() -> StoreError {
    StoreError { kind: StoreErrorKind::ConnectionFailure, message: "no route".to_string() }
}

fn complete_layout() -> SourceLayout {
    SourceLayout {
        aliases_db: PathKind::File,
        sequences_dir: PathKind::Directory,
        sequences_db: PathKind::File,
    }
}

fn alias_row(seq_id: &str, namespace: &str, alias: &str, added: &str, is_current: bool) -> SeqAlias {
    SeqAlias {
        seq_id: seq_id.to_string(),
        namespace: namespace.to_string(),
        alias: alias.to_string(),
        added: added.to_string(),
        is_current,
    }
}

fn sequence_row(seq_id: &str, len: u64, alpha: &str, added: &str, relpath: &str) -> FastadirEntry {
    FastadirEntry {
        seq_id: seq_id.to_string(),
        len,
        alpha: alpha.to_string(),
        added: added.to_string(),
        relpath: relpath.to_string(),
    }
}

// Runs an import as a caller would. A row of `None` is a row that cannot be read.
fn run_import(
    store: &mut MemoryStore,
    layout: SourceLayout,
    aliases: Vec<Option<SeqAlias>>,
    sequences: Vec<Option<FastadirEntry>>,
) -> Result<ImportSummary, SeqRepoImportError> {
    let mut aliases = aliases.into_iter();
    let mut sequences = sequences.into_iter();
    let (mut state, mut action) = import();
    loop {
        let event = match action {
            ImportAction::CheckLayout => ImportEvent::Layout(layout),
            ImportAction::NextAliasRow => match aliases.next() {
                Some(Some(row)) => ImportEvent::AliasRow(row),
                Some(None) => ImportEvent::RowFailed,
                None => ImportEvent::EndOfRows,
            },
            ImportAction::NextSequenceRow => match sequences.next() {
                Some(Some(row)) => ImportEvent::SequenceRow(row),
                Some(None) => ImportEvent::RowFailed,
                None => ImportEvent::EndOfRows,
            },
            ImportAction::Put(put) => match store.put(put) {
                Ok(()) => ImportEvent::PutDone,
                Err(e) => ImportEvent::PutFailed(e),
            },
            ImportAction::Stop => return state.result().unwrap(),
        };
        let next = import_step(state, event);
        state = next.0;
        action = next.1;
    }
}

// Runs a lookup as a caller would.
fn run_lookup(
    store: &MemoryStore,
    namespace: &str,
    alias: &str,
) -> Result<Option<SequenceMetadata>, SeqRepoLookupError> {
    let mut step = resolve_alias(namespace, alias);
    let mut reads = 0;
    loop {
        match step {
            LookupStep::Done(result) => return result,
            LookupStep::Read(state, read) => {
                reads += 1;
                assert!(reads <= 3);
                step = lookup_step(state, Ok(store.read(&read)));
            }
        }
    }
}

fn chr1_store() -> MemoryStore {
    let mut store = MemoryStore::new();
    let summary = run_import(
        &mut store,
        complete_layout(),
        vec![Some(alias_row("SQ.abc", "refseq", "NC_000001.11", "2024-01-01", true))],
        vec![Some(sequence_row("SQ.abc", 248956422, "na", "2024-01-01", "chr1.fa"))],
    );
    assert_eq!(summary, Ok(ImportSummary { aliases: 1, sequences: 1 }));
    store
}

#[test]
fn imported_alias_resolves_to_its_sequence() {
    let store = chr1_store();
    assert_eq!(
        run_lookup(&store, "refseq", "NC_000001.11"),
        Ok(Some(SequenceMetadata {
            canonical_id: "SQ.abc".to_string(),
            length: 248956422,
            alphabet: "na".to_string(),
            added: "2024-01-01".to_string(),
            aliases: vec!["refseq:NC_000001.11".to_string()],
        }))
    );
}

#[test]
fn every_imported_alias_resolves() {
    let mut store = MemoryStore::new();
    let aliases = vec![
        alias_row("SQ.abc", "refseq", "NC_000001.11", "2024-01-01", true),
        alias_row("SQ.abc", "ucsc", "chr1", "2024-01-02", true),
        alias_row("SQ.def", "refseq", "NC_000002.12", "2024-01-01", false),
    ];
    let sequences = vec![
        sequence_row("SQ.def", 242193529, "na", "2024-01-03", "chr2.fa"),
        sequence_row("SQ.abc", 248956422, "na", "2024-01-01", "chr1.fa"),
    ];
    let summary = run_import(
        &mut store,
        complete_layout(),
        aliases.iter().cloned().map(Some).collect(),
        sequences.iter().cloned().map(Some).collect(),
    );
    assert_eq!(summary, Ok(ImportSummary { aliases: 3, sequences: 2 }));
    for alias in &aliases {
        let metadata = run_lookup(&store, &alias.namespace, &alias.alias).unwrap().unwrap();
        assert_eq!(metadata.canonical_id, alias.seq_id);
    }
    let chr1 = run_lookup(&store, "ucsc", "chr1").unwrap().unwrap();
    assert_eq!(chr1.length, 248956422);
    assert_eq!(chr1.aliases, vec!["refseq:NC_000001.11".to_string(), "ucsc:chr1".to_string()]);
}

#[test]
fn last_write_wins_for_one_alias() {
    let mut store = MemoryStore::new();
    let summary = run_import(
        &mut store,
        complete_layout(),
        vec![
            Some(alias_row("SQ.old", "refseq", "NC_1", "2023-01-01", false)),
            Some(alias_row("SQ.new", "refseq", "NC_1", "2024-01-01", true)),
        ],
        vec![
            Some(sequence_row("SQ.old", 1, "na", "2023-01-01", "old.fa")),
            Some(sequence_row("SQ.new", 2, "na", "2024-01-01", "new.fa")),
        ],
    );
    assert_eq!(summary, Ok(ImportSummary { aliases: 2, sequences: 2 }));
    let metadata = run_lookup(&store, "refseq", "NC_1").unwrap().unwrap();
    assert_eq!(metadata.canonical_id, "SQ.new");
    assert_eq!(store.items.len(), 3);
}

#[test]
fn unknown_alias_is_not_found() {
    let store = chr1_store();
    assert_eq!(run_lookup(&store, "refseq", "NC_000002.12"), Ok(None));
    assert_eq!(run_lookup(&store, "ensembl", "NC_000001.11"), Ok(None));
    assert_eq!(run_lookup(&MemoryStore::new(), "refseq", "NC_000001.11"), Ok(None));
}

#[test]
fn unknown_alias_takes_one_read() {
    let step = resolve_alias("refseq", "nothing");
    let state = match step {
        LookupStep::Read(state, StoreRead::Exact(key)) => {
            assert_eq!(key.partition_key, "seqalias");
            assert_eq!(key.sort_key, "refseq:nothing");
            state
        }
        other => panic!("{:?}", other),
    };
    assert_eq!(state, LookupState::AwaitingAlias);
    assert_eq!(lookup_step(state, Ok(vec![])), LookupStep::Done(Ok(None)));
}

#[test]
fn malformed_alias_is_refused_before_any_read() {
    let refused =
        LookupStep::Done(Err(SeqRepoLookupError::InvalidInput(InputError { kind: ErrorKind::InvalidKey })));
    assert_eq!(resolve_alias("ref:seq", "NC_1"), refused);
    assert_eq!(resolve_alias("refseq", "NC:1"), refused);
}

#[test]
fn dangling_reference_is_reported() {
    let mut store = MemoryStore::new();
    let summary = run_import(
        &mut store,
        complete_layout(),
        vec![Some(alias_row("SQ.abc", "refseq", "NC_000001.11", "2024-01-01", true))],
        vec![Some(sequence_row("SQ.other", 5, "na", "2024-01-01", "other.fa"))],
    );
    assert_eq!(summary, Ok(ImportSummary { aliases: 1, sequences: 1 }));
    assert_eq!(
        run_lookup(&store, "refseq", "NC_000001.11"),
        Err(SeqRepoLookupError::DanglingReference)
    );
    assert_ne!(run_lookup(&store, "refseq", "NC_000001.11"), Ok(None));
}

#[test]
fn lookup_asks_for_the_sequence_then_for_its_aliases() {
    let store = chr1_store();
    let (state, read) = match resolve_alias("refseq", "NC_000001.11") {
        LookupStep::Read(state, read) => (state, read),
        other => panic!("{:?}", other),
    };
    let (state, read) = match lookup_step(state, Ok(store.read(&read))) {
        LookupStep::Read(state, read) => (state, read),
        other => panic!("{:?}", other),
    };
    assert_eq!(state, LookupState::AwaitingSequenceInfo);
    match &read {
        StoreRead::Exact(key) => {
            assert_eq!(key.partition_key, "seqinfo");
            assert_eq!(key.sort_key, "SQ.abc");
        }
        other => panic!("{:?}", other),
    }
    let (state, read) = match lookup_step(state, Ok(store.read(&read))) {
        LookupStep::Read(state, read) => (state, read),
        other => panic!("{:?}", other),
    };
    assert_eq!(
        state,
        LookupState::AwaitingAliases(sequence_row("SQ.abc", 248956422, "na", "2024-01-01", "chr1.fa"))
    );
    assert_eq!(read, StoreRead::AliasesOf("SQ.abc".to_string()));
}

#[test]
fn corrupt_alias_record_is_reported() {
    let mut item = alias_row("SQ.abc", "refseq", "NC_1", "2024-01-01", true).to_attributes();
    item.insert("current".to_string(), AttributeValue::S("yes".to_string()));
    assert_eq!(
        lookup_step(LookupState::AwaitingAlias, Ok(vec![item])),
        LookupStep::Done(Err(SeqRepoLookupError::CorruptRecord(
            DynamodbConversionError::TypeMismatch("current".to_string())
        )))
    );
}

#[test]
fn corrupt_sequence_record_is_reported() {
    let mut item = sequence_row("SQ.abc", 5, "na", "2024-01-01", "chr1.fa").to_attributes();
    item.insert("len".to_string(), AttributeValue::N("five".to_string()));
    assert_eq!(
        lookup_step(LookupState::AwaitingSequenceInfo, Ok(vec![item])),
        LookupStep::Done(Err(SeqRepoLookupError::CorruptRecord(
            DynamodbConversionError::TypeMismatch("len".to_string())
        )))
    );
}

#[test]
fn corrupt_alias_in_the_listing_is_reported() {
    let good = alias_row("SQ.abc", "refseq", "NC_1", "2024-01-01", true).to_attributes();
    let mut bad = AttributeMap::new();
    bad.insert("seq_id".to_string(), AttributeValue::S("SQ.abc".to_string()));
    let info = sequence_row("SQ.abc", 5, "na", "2024-01-01", "chr1.fa");
    assert_eq!(
        lookup_step(LookupState::AwaitingAliases(info), Ok(vec![good, bad])),
        LookupStep::Done(Err(SeqRepoLookupError::CorruptRecord(
            DynamodbConversionError::MissingField("name".to_string())
        )))
    );
}

#[test]
fn several_items_under_one_key_are_invalid_data() {
    let item = alias_row("SQ.abc", "refseq", "NC_1", "2024-01-01", true).to_attributes();
    let error = SeqRepoLookupError::InvalidData(
        "Multiple items under one key -- should be impossible".to_string(),
    );
    assert_eq!(
        lookup_step(LookupState::AwaitingAlias, Ok(vec![item.duplicate(), item.duplicate()])),
        LookupStep::Done(Err(error.clone()))
    );
    assert_eq!(
        lookup_step(LookupState::AwaitingSequenceInfo, Ok(vec![item.duplicate(), item])),
        LookupStep::Done(Err(error))
    );
}

#[test]
fn backend_failure_is_passed_on_and_retryable() {
    let info = sequence_row("SQ.abc", 5, "na", "2024-01-01", "chr1.fa");
    for state in [
        LookupState::AwaitingAlias,
        LookupState::AwaitingSequenceInfo,
        LookupState::AwaitingAliases(info),
    ] {
        assert_eq!(
            lookup_step(state, Err(unreachable_backend())),
            LookupStep::Done(Err(SeqRepoLookupError::DynamoDbError(unreachable_backend())))
        );
    }
    assert!(SeqRepoLookupError::DynamoDbError(unreachable_backend()).is_retryable());
    assert!(!SeqRepoLookupError::DanglingReference.is_retryable());
    assert!(!SeqRepoLookupError::InvalidData("x".to_string()).is_retryable());
    assert!(!SeqRepoLookupError::InvalidInput(InputError { kind: ErrorKind::InvalidKey })
        .is_retryable());
    assert!(!SeqRepoLookupError::CorruptRecord(DynamodbConversionError::MissingField(
        "seq_id".to_string()
    ))
    .is_retryable());
}

#[test]
fn sequence_id_from_alias_matches() {
    let item = alias_row("SQ.abc", "refseq", "NC_1", "2024-01-01", true).to_attributes();
    assert_eq!(get_sequence_id_from_alias(&vec![]), Ok(None));
    assert_eq!(get_sequence_id_from_alias(&vec![item.duplicate()]), Ok(Some("SQ.abc".to_string())));
    assert_eq!(
        get_sequence_id_from_alias(&vec![item.duplicate(), item]),
        Err(SeqRepoLookupError::InvalidData(
            "Multiple items under one key -- should be impossible".to_string()
        ))
    );
    assert_eq!(
        get_sequence_id_from_alias(&vec![AttributeMap::new()]),
        Err(SeqRepoLookupError::CorruptRecord(DynamodbConversionError::MissingField(
            "seq_id".to_string()
        )))
    );
}

#[test]
fn metadata_lists_aliases_in_the_order_of_the_listing() {
    let info = sequence_row("SQ.abc", 5, "aa", "2024-02-02", "p.fa");
    let listing = vec![
        alias_row("SQ.abc", "ucsc", "chr1", "2024-01-01", true).to_attributes(),
        alias_row("SQ.abc", "refseq", "NC_1", "2024-01-01", false).to_attributes(),
    ];
    assert_eq!(
        get_sequence_metadata(info, &listing),
        Ok(SequenceMetadata {
            canonical_id: "SQ.abc".to_string(),
            length: 5,
            alphabet: "aa".to_string(),
            added: "2024-02-02".to_string(),
            aliases: vec!["ucsc:chr1".to_string(), "refseq:NC_1".to_string()],
        })
    );
}

#[test]
fn metadata_without_aliases() {
    let info = sequence_row("SQ.abc", 5, "aa", "2024-02-02", "p.fa");
    assert_eq!(get_sequence_metadata(info, &vec![]).unwrap().aliases, Vec::<String>::new());
}

#[test]
fn written_form_of_an_alias() {
    let record = alias_row("SQ.abc", "refseq", "NC_1", "2024-01-01", true);
    assert_eq!(
        SequenceAlias::of_record(&record),
        SequenceAlias { alias: "refseq:NC_1".to_string(), seq_id: "SQ.abc".to_string() }
    );
}

#[test]
fn import_begins_with_the_layout() {
    let (state, action) = import();
    assert_eq!(state, ImportState::Validating);
    assert!(matches!(action, ImportAction::CheckLayout));
    assert_eq!(state.result(), None);
}

#[test]
fn incomplete_source_is_refused_before_any_row() {
    let mut store = MemoryStore::new();
    let layout = SourceLayout { sequences_db: PathKind::Missing, ..complete_layout() };
    let result = run_import(
        &mut store,
        layout,
        vec![Some(alias_row("SQ.abc", "refseq", "NC_1", "2024-01-01", true))],
        vec![],
    );
    assert_eq!(result, Err(SeqRepoImportError::InvalidSourceLayout));
    assert_eq!(store.puts, 0);
}

#[test]
fn malformed_sequence_row_aborts_the_run() {
    let mut store = MemoryStore::new();
    let result = run_import(
        &mut store,
        complete_layout(),
        vec![Some(alias_row("SQ.abc", "refseq", "NC_1", "2024-01-01", true))],
        vec![
            Some(sequence_row("SQ.abc", 5, "na", "2024-01-01", "a.fa")),
            None,
            Some(sequence_row("SQ.def", 6, "na", "2024-01-01", "b.fa")),
        ],
    );
    assert_eq!(result, Err(SeqRepoImportError::SourceReadFailure));
    assert_eq!(store.puts, 2);
    assert!(store.items.contains_key(&("seqinfo".to_string(), "SQ.abc".to_string())));
    assert!(!store.items.contains_key(&("seqinfo".to_string(), "SQ.def".to_string())));
}

#[test]
fn malformed_alias_row_aborts_the_run() {
    let mut store = MemoryStore::new();
    let result = run_import(
        &mut store,
        complete_layout(),
        vec![None, Some(alias_row("SQ.abc", "refseq", "NC_1", "2024-01-01", true))],
        vec![Some(sequence_row("SQ.abc", 5, "na", "2024-01-01", "a.fa"))],
    );
    assert_eq!(result, Err(SeqRepoImportError::SourceReadFailure));
    assert_eq!(store.puts, 0);
}

#[test]
fn alias_that_holds_the_separator_aborts_the_run() {
    let mut store = MemoryStore::new();
    let result = run_import(
        &mut store,
        complete_layout(),
        vec![
            Some(alias_row("SQ.abc", "refseq", "NC_1", "2024-01-01", true)),
            Some(alias_row("SQ.abc", "ref:seq", "NC_2", "2024-01-01", true)),
            Some(alias_row("SQ.abc", "refseq", "NC_3", "2024-01-01", true)),
        ],
        vec![],
    );
    assert_eq!(result, Err(SeqRepoImportError::SourceReadFailure));
    assert_eq!(store.puts, 1);
}

#[test]
fn failed_write_aborts_the_run() {
    let mut store = MemoryStore::new();
    store.fail_put_number = Some(2);
    let result = run_import(
        &mut store,
        complete_layout(),
        vec![
            Some(alias_row("SQ.abc", "refseq", "NC_1", "2024-01-01", true)),
            Some(alias_row("SQ.abc", "refseq", "NC_2", "2024-01-01", true)),
            Some(alias_row("SQ.abc", "refseq", "NC_3", "2024-01-01", true)),
        ],
        vec![],
    );
    assert_eq!(result, Err(SeqRepoImportError::StoreFailure(unreachable_backend())));
    assert_eq!(store.puts, 2);
    assert_eq!(store.items.len(), 1);
}

#[test]
fn empty_source_imports_nothing() {
    let mut store = MemoryStore::new();
    let result = run_import(&mut store, complete_layout(), vec![], vec![]);
    assert_eq!(result, Ok(ImportSummary { aliases: 0, sequences: 0 }));
    assert_eq!(store.puts, 0);
}

#[test]
fn aliases_are_imported_before_sequences() {
    let (state, _) = import_step(ImportState::Validating, ImportEvent::Layout(complete_layout()));
    assert_eq!(state, ImportState::ImportingAliases { written: 0, writing: false });
    let (state, action) = import_step(state, ImportEvent::EndOfRows);
    assert_eq!(state, ImportState::ImportingSequenceInfo { aliases: 0, written: 0, writing: false });
    assert!(matches!(action, ImportAction::NextSequenceRow));
    let (state, action) = import_step(state, ImportEvent::EndOfRows);
    assert_eq!(state, ImportState::Done(ImportSummary { aliases: 0, sequences: 0 }));
    assert!(matches!(action, ImportAction::Stop));
}

#[test]
fn finished_run_asks_for_nothing() {
    let over = [
        ImportState::Done(ImportSummary { aliases: 1, sequences: 2 }),
        ImportState::Failed(SeqRepoImportError::SourceReadFailure),
    ];
    for state in over {
        for event in [
            ImportEvent::AliasRow(alias_row("SQ.abc", "refseq", "NC_1", "2024-01-01", true)),
            ImportEvent::SequenceRow(sequence_row("SQ.abc", 5, "na", "2024-01-01", "a.fa")),
            ImportEvent::PutDone,
            ImportEvent::EndOfRows,
            ImportEvent::Layout(complete_layout()),
        ] {
            let (next, action) = import_step(state.clone(), event);
            assert_eq!(next, state);
            assert!(matches!(action, ImportAction::Stop));
        }
    }
}

#[test]
fn event_out_of_order_ends_the_run() {
    let cases = [
        (ImportState::Validating, ImportEvent::EndOfRows),
        (ImportState::ImportingAliases { written: 0, writing: false }, ImportEvent::PutDone),
        (
            ImportState::ImportingAliases { written: 0, writing: false },
            ImportEvent::SequenceRow(sequence_row("SQ.abc", 5, "na", "2024-01-01", "a.fa")),
        ),
        (ImportState::ImportingAliases { written: 0, writing: true }, ImportEvent::EndOfRows),
        (
            ImportState::ImportingSequenceInfo { aliases: 0, written: 0, writing: false },
            ImportEvent::AliasRow(alias_row("SQ.abc", "refseq", "NC_1", "2024-01-01", true)),
        ),
        (
            ImportState::ImportingSequenceInfo { aliases: 0, written: 0, writing: true },
            ImportEvent::RowFailed,
        ),
    ];
    for (state, event) in cases {
        let (next, action) = import_step(state, event);
        assert_eq!(next, ImportState::Failed(SeqRepoImportError::OutOfOrder));
        assert!(matches!(action, ImportAction::Stop));
    }
}

#[test]
fn counters_stop_at_the_top() {
    let (state, _) = import_step(
        ImportState::ImportingAliases { written: u64::MAX, writing: true },
        ImportEvent::PutDone,
    );
    assert_eq!(state, ImportState::ImportingAliases { written: u64::MAX, writing: false });
    let (state, _) = import_step(
        ImportState::ImportingSequenceInfo { aliases: 3, written: 41, writing: true },
        ImportEvent::PutDone,
    );
    assert_eq!(state, ImportState::ImportingSequenceInfo { aliases: 3, written: 42, writing: false });
}

#[test]
fn result_of_a_run() {
    assert_eq!(
        ImportState::Done(ImportSummary { aliases: 1, sequences: 2 }).result(),
        Some(Ok(ImportSummary { aliases: 1, sequences: 2 }))
    );
    assert_eq!(
        ImportState::Failed(SeqRepoImportError::StoreFailure(unreachable_backend())).result(),
        Some(Err(SeqRepoImportError::StoreFailure(unreachable_backend())))
    );
    assert_eq!(ImportState::ImportingAliases { written: 0, writing: false }.result(), None);
}
