use seqrepo::import::{source_paths, validate_seqrepo_instance, PathKind, SeqRepoInstanceError, SourceLayout};
use seqrepo::keys::{ErrorKind, InputError};
use seqrepo::records::{FastadirEntry, SeqAlias};
use seqrepo::store::{
    alias_index, create_table, create_table_if_not_exists, put_seq_alias, put_seq_info,
    table_created, CreateOutcome, SchemaStep, StoreError, StoreErrorKind, TableSchema,
};

fn throttled() -> StoreError {
    StoreError { kind: StoreErrorKind::Throttled, message: "slow down".to_string() }
}

fn expected_schema() -> TableSchema {
    TableSchema {
        table_name: "seqrepo".to_string(),
        hash_key: "type".to_string(),
        range_key: "name".to_string(),
        read_capacity_units: 100,
        write_capacity_units: 100,
    }
}

// A backend that holds tables and answers one request at a time.
fn backend_create(tables: &mut Vec<String>, schema: &TableSchema) -> CreateOutcome {
    if tables.contains(&schema.table_name) {
        CreateOutcome::AlreadyExists
    } else {
        tables.push(schema.table_name.clone());
        CreateOutcome::Created
    }
}

#[test]
fn schema_has_two_string_keys() {
    assert_eq!(create_table(), expected_schema());
}

#[test]
fn alias_index_name() {
    assert_eq!(alias_index(), "type-seq_id-index");
}

#[test]
fn table_is_created_when_absent() {
    assert_eq!(create_table_if_not_exists(Ok(vec![])), SchemaStep::Create(expected_schema()));
    assert_eq!(
        create_table_if_not_exists(Ok(vec!["other".to_string(), "seqrepo2".to_string()])),
        SchemaStep::Create(expected_schema())
    );
}

#[test]
fn table_is_left_alone_when_present() {
    assert_eq!(
        create_table_if_not_exists(Ok(vec!["other".to_string(), "seqrepo".to_string()])),
        SchemaStep::Ready
    );
}

#[test]
fn listing_failure_is_passed_on() {
    assert_eq!(create_table_if_not_exists(Err(throttled())), SchemaStep::Failed(throttled()));
}

#[test]
fn already_exists_counts_as_success() {
    assert_eq!(table_created(CreateOutcome::Created), Ok(()));
    assert_eq!(table_created(CreateOutcome::AlreadyExists), Ok(()));
    assert_eq!(table_created(CreateOutcome::Failed(throttled())), Err(throttled()));
}

#[test]
fn creating_twice_in_sequence_leaves_one_table() {
    let mut tables: Vec<String> = vec!["other".to_string()];
    for _ in 0..2 {
        let result = match create_table_if_not_exists(Ok(tables.clone())) {
            SchemaStep::Ready => Ok(()),
            SchemaStep::Create(schema) => table_created(backend_create(&mut tables, &schema)),
            SchemaStep::Failed(e) => Err(e),
        };
        assert_eq!(result, Ok(()));
    }
    assert_eq!(tables, vec!["other".to_string(), "seqrepo".to_string()]);
}

#[test]
fn creating_concurrently_leaves_one_table() {
    let mut tables: Vec<String> = vec![];
    // Both callers list before either creates.
    let first = create_table_if_not_exists(Ok(tables.clone()));
    let second = create_table_if_not_exists(Ok(tables.clone()));
    let mut results = vec![];
    for step in [first, second] {
        results.push(match step {
            SchemaStep::Ready => Ok(()),
            SchemaStep::Create(schema) => table_created(backend_create(&mut tables, &schema)),
            SchemaStep::Failed(e) => Err(e),
        });
    }
    assert_eq!(results, vec![Ok(()), Ok(())]);
    assert_eq!(tables, vec!["seqrepo".to_string()]);
}

#[test]
fn put_of_an_alias() {
    let alias = SeqAlias {
        seq_id: "SQ.abc".to_string(),
        namespace: "refseq".to_string(),
        alias: "NC_000001.11".to_string(),
        added: "2024-01-01".to_string(),
        is_current: true,
    };
    let put = put_seq_alias(&alias).unwrap();
    assert_eq!(put.key.partition_key, "seqalias");
    assert_eq!(put.key.sort_key, "refseq:NC_000001.11");
    assert_eq!(put.attributes.entries(), alias.to_attributes().entries());
}

#[test]
fn put_of_an_alias_with_separator_is_refused() {
    let alias = SeqAlias {
        seq_id: "SQ.abc".to_string(),
        namespace: "ref:seq".to_string(),
        alias: "NC_000001.11".to_string(),
        added: "2024-01-01".to_string(),
        is_current: true,
    };
    assert_eq!(put_seq_alias(&alias).err(), Some(InputError { kind: ErrorKind::InvalidKey }));
}

#[test]
fn put_of_a_sequence() {
    let info = FastadirEntry {
        seq_id: "SQ.abc".to_string(),
        len: 248956422,
        alpha: "na".to_string(),
        added: "2024-01-01".to_string(),
        relpath: "chr1.fa".to_string(),
    };
    let put = put_seq_info(&info);
    assert_eq!(put.key.partition_key, "seqinfo");
    assert_eq!(put.key.sort_key, "SQ.abc");
    assert_eq!(put.attributes.entries(), info.to_attributes().entries());
}

#[test]
fn source_paths_are_fixed() {
    let paths = source_paths();
    assert_eq!(paths.aliases_db, "aliases.sqlite3");
    assert_eq!(paths.sequences_dir, "sequences");
    assert_eq!(paths.sequences_db, "db.sqlite3");
}

#[test]
fn complete_layout_is_valid() {
    let layout = SourceLayout {
        aliases_db: PathKind::File,
        sequences_dir: PathKind::Directory,
        sequences_db: PathKind::File,
    };
    assert_eq!(validate_seqrepo_instance(&layout), Ok(()));
}

#[test]
fn any_wrong_part_makes_the_layout_invalid() {
    let complete = SourceLayout {
        aliases_db: PathKind::File,
        sequences_dir: PathKind::Directory,
        sequences_db: PathKind::File,
    };
    for wrong in [PathKind::Missing, PathKind::Directory, PathKind::Other] {
        let layout = SourceLayout { aliases_db: wrong, ..complete };
        assert_eq!(validate_seqrepo_instance(&layout), Err(SeqRepoInstanceError));
        let layout = SourceLayout { sequences_db: wrong, ..complete };
        assert_eq!(validate_seqrepo_instance(&layout), Err(SeqRepoInstanceError));
    }
    for wrong in [PathKind::Missing, PathKind::File, PathKind::Other] {
        let layout = SourceLayout { sequences_dir: wrong, ..complete };
        assert_eq!(validate_seqrepo_instance(&layout), Err(SeqRepoInstanceError));
    }
}
