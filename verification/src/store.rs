//! What is asked of the store, and what its answers mean.
//!
//! Nothing here talks to a store. A caller performs each request against the
//! backend and hands the answer back as plain data; this module says which table
//! and which items, and what a given answer decides.

use crate::attributes::{AttributeMap, Item};
use crate::keys::{encode, InputError, ObjectType, StoreKey};
use crate::records::{pk_name, sk_name, FastadirEntry, FastadirEntryView, SeqAlias, SeqAliasView};
use crate::text::str_eq;
use vstd::prelude::*;
use vstd::string::*;

verus! {

/// The kind of a backend failure.
#[derive(Debug, Clone, Copy, PartialEq, Eq, Structural)]
pub enum StoreErrorKind {
    /// The backend did not answer in time.
    Timeout,
    /// The backend refused the request for load.
    Throttled,
    /// The backend could not be reached.
    ConnectionFailure,
    /// Any other failure of the backend or of the transport.
    Other,
}

/// A failure of the backend or of the transport. The same request may succeed
/// later.
#[derive(Debug, Clone, PartialEq, Eq)]
pub struct StoreError {
    pub kind: StoreErrorKind,
    /// What the backend said.
    pub message: String,
}

/// A backend failure as plain data.
pub struct StoreErrorView {
    pub kind: StoreErrorKind,
    pub message: Seq<char>,
}

impl View for StoreError {
    type V = StoreErrorView;

    open spec fn view(&self) -> StoreErrorView {
        StoreErrorView { kind: self.kind, message: self.message@ }
    }
}

/// The table and its two keys. Both key attributes hold strings: the hash key the
/// tag of the record's kind, the range key the record's natural identifier.
#[derive(Debug, Clone, PartialEq, Eq)]
pub struct TableSchema {
    pub table_name: String,
    /// The attribute of the hash key.
    pub hash_key: String,
    /// The attribute of the range key.
    pub range_key: String,
    pub read_capacity_units: u64,
    pub write_capacity_units: u64,
}

/// A table schema as plain data.
pub struct TableSchemaView {
    pub table_name: Seq<char>,
    pub hash_key: Seq<char>,
    pub range_key: Seq<char>,
    pub read_capacity_units: u64,
    pub write_capacity_units: u64,
}

impl View for TableSchema {
    type V = TableSchemaView;

    open spec fn view(&self) -> TableSchemaView {
        TableSchemaView {
            table_name: self.table_name@,
            hash_key: self.hash_key@,
            range_key: self.range_key@,
            read_capacity_units: self.read_capacity_units,
            write_capacity_units: self.write_capacity_units,
        }
    }
}

/// The name of the one table.
pub open spec fn table_name() -> Seq<char> {
    "seqrepo"@
}

/// The name of the index that lists the aliases of a sequence: its hash key is the
/// record's kind, its range key the attribute `seq_id`.
pub open spec fn alias_index_name() -> Seq<char> {
    "type-seq_id-index"@
}

/// The schema of the one table.
pub open spec fn seqrepo_schema() -> TableSchemaView {
    TableSchemaView {
        table_name: table_name(),
        hash_key: pk_name(),
        range_key: sk_name(),
        read_capacity_units: 100,
        write_capacity_units: 100,
    }
}

/// The schema with which the table is created.
pub fn create_table() -> (schema: TableSchema)
    ensures
        schema@ == seqrepo_schema(),
{
    TableSchema {
        table_name: "seqrepo".to_string(),
        hash_key: "type".to_string(),
        range_key: "name".to_string(),
        read_capacity_units: 100,
        write_capacity_units: 100,
    }
}

/// The index to query for the aliases of a sequence.
pub fn alias_index() -> (name: String)
    ensures
        name@ == alias_index_name(),
{
    "type-seq_id-index".to_string()
}

/// What to do once the backend has listed its tables.
#[derive(Debug, Clone, PartialEq, Eq)]
pub enum SchemaStep {
    /// The table exists: there is nothing to do.
    Ready,
    /// The table has to be created, with this schema.
    Create(TableSchema),
    /// The tables could not be listed.
    Failed(StoreError),
}

/// A schema step as plain data.
pub enum SchemaStepView {
    Ready,
    Create(TableSchemaView),
    Failed(StoreErrorView),
}

impl View for SchemaStep {
    type V = SchemaStepView;

    open spec fn view(&self) -> SchemaStepView {
        match self {
            SchemaStep::Ready => SchemaStepView::Ready,
            SchemaStep::Create(schema) => SchemaStepView::Create(schema@),
            SchemaStep::Failed(e) => SchemaStepView::Failed(e@),
        }
    }
}

/// How the backend answered a request to create the table.
#[derive(Debug, Clone, PartialEq, Eq)]
pub enum CreateOutcome {
    Created,
    /// The table was there already: another caller was faster.
    AlreadyExists,
    Failed(StoreError),
}

/// A creation outcome as plain data.
pub enum CreateOutcomeView {
    Created,
    AlreadyExists,
    Failed(StoreErrorView),
}

impl View for CreateOutcome {
    type V = CreateOutcomeView;

    open spec fn view(&self) -> CreateOutcomeView {
        match self {
            CreateOutcome::Created => CreateOutcomeView::Created,
            CreateOutcome::AlreadyExists => CreateOutcomeView::AlreadyExists,
            CreateOutcome::Failed(e) => CreateOutcomeView::Failed(e@),
        }
    }
}

/// The names of a listing, as plain data.
pub open spec fn names_view(names: Seq<String>) -> Seq<Seq<char>> {
    Seq::new(names.len(), |i: int| names[i]@)
}

/// The step that a listing of the backend's tables calls for.
pub open spec fn schema_step(listing: Result<Seq<Seq<char>>, StoreErrorView>) -> SchemaStepView {
    match listing {
        Err(e) => SchemaStepView::Failed(e),
        Ok(names) => if names.contains(table_name()) {
            SchemaStepView::Ready
        } else {
            SchemaStepView::Create(seqrepo_schema())
        },
    }
}

/// What a creation outcome means for the caller: that the table was there already
/// is as good as having created it.
pub open spec fn creation_result(outcome: CreateOutcomeView) -> Result<(), StoreErrorView> {
    match outcome {
        CreateOutcomeView::Created => Ok(()),
        CreateOutcomeView::AlreadyExists => Ok(()),
        CreateOutcomeView::Failed(e) => Err(e),
    }
}

/// Whether `names` holds `name`.
fn holds_name(names: &Vec<String>, name: &str) -> (found: bool)
    ensures
        found == names_view(names@).contains(name@),
{
    let mut i: usize = 0;
    while i < names.len()
        invariant
            i <= names@.len(),
            forall|k: int| 0 <= k < i ==> names_view(names@)[k] != name@,
        decreases names@.len() - i,
    {
        if str_eq(names[i].as_str(), name) {
            assert(names_view(names@)[i as int] == name@);
            return true;
        }
        i += 1;
    }
    false
}

/// Decides, from the backend's list of tables, whether the table has to be created.
pub fn create_table_if_not_exists(listing: Result<Vec<String>, StoreError>) -> (step: SchemaStep)
    ensures
        step@ == schema_step(
            match listing {
                Ok(names) => Ok(names_view(names@)),
                Err(e) => Err(e@),
            },
        ),
{
    match listing {
        Err(e) => SchemaStep::Failed(e),
        Ok(names) => {
            if holds_name(&names, "seqrepo") {
                SchemaStep::Ready
            } else {
                SchemaStep::Create(create_table())
            }
        },
    }
}

/// Settles the creation of the table.
pub fn table_created(outcome: CreateOutcome) -> (result: Result<(), StoreError>)
    ensures
        match result {
            Ok(_) => creation_result(outcome@) == Ok::<(), StoreErrorView>(()),
            Err(e) => creation_result(outcome@) == Err::<(), _>(e@),
        },
{
    match outcome {
        CreateOutcome::Created => Ok(()),
        CreateOutcome::AlreadyExists => Ok(()),
        CreateOutcome::Failed(e) => Err(e),
    }
}

/// One item to write, and where.
#[derive(Debug, Clone)]
pub struct PutItem {
    pub key: StoreKey,
    pub attributes: AttributeMap,
}

/// A write as plain data.
pub struct PutItemView {
    pub key: (Seq<char>, Seq<char>),
    pub attributes: Item,
}

impl View for PutItem {
    type V = PutItemView;

    open spec fn view(&self) -> PutItemView {
        PutItemView { key: self.key@, attributes: self.attributes@ }
    }
}

/// The write that stores an alias, or why the alias cannot be stored.
pub open spec fn alias_put(alias: SeqAliasView) -> Result<PutItemView, InputError> {
    match alias.key().encoded() {
        Ok(key) => Ok(PutItemView { key, attributes: alias.item() }),
        Err(e) => Err(e),
    }
}

/// The write that stores the facts about a sequence.
pub open spec fn sequence_put(entry: FastadirEntryView) -> PutItemView {
    PutItemView {
        key: (ObjectType::SeqInfo.db_value(), entry.seq_id),
        attributes: entry.item(),
    }
}

/// Prepares the write of an alias. An alias whose namespace or name holds the
/// separator is not written.
pub fn put_seq_alias(seq_alias: &SeqAlias) -> (put: Result<PutItem, InputError>)
    ensures
        match put {
            Ok(p) => alias_put(seq_alias@) == Ok::<_, InputError>(p@),
            Err(e) => alias_put(seq_alias@) == Err::<PutItemView, _>(e),
        },
{
    match encode(&seq_alias.key()) {
        Ok(key) => Ok(PutItem { key, attributes: seq_alias.to_attributes() }),
        Err(e) => Err(e),
    }
}

/// Prepares the write of the facts about a sequence.
pub fn put_seq_info(entry: &FastadirEntry) -> (put: PutItem)
    ensures
        put@ == sequence_put(entry@),
{
    PutItem {
        key: StoreKey {
            partition_key: ObjectType::SeqInfo.to_db_value(),
            sort_key: entry.seq_id.clone(),
        },
        attributes: entry.to_attributes(),
    }
}

/// The table as plain data: at most one item under each pair of partition key and
/// sort key.
pub type Table = Map<(Seq<char>, Seq<char>), Item>;

/// The table after a write: the item replaces what was under its key.
pub open spec fn table_put(table: Table, put: PutItemView) -> Table {
    table.insert(put.key, put.attributes)
}

/// The items that a point read finds: the one under the key, or none.
pub open spec fn table_get(table: Table, key: (Seq<char>, Seq<char>)) -> Seq<Item> {
    if table.contains_key(key) {
        seq![table[key]]
    } else {
        Seq::<Item>::empty()
    }
}

/// A write is stored under the key that the item itself holds.
pub proof fn put_key_matches_item(alias: SeqAliasView, entry: FastadirEntryView)
    ensures
        alias.valid() ==> alias_put(alias) is Ok && {
            let put = alias_put(alias)->Ok_0;
            &&& put.attributes[pk_name()] == crate::attributes::AttributeValueView::S(put.key.0)
            &&& put.attributes[sk_name()] == crate::attributes::AttributeValueView::S(put.key.1)
        },
        sequence_put(entry).attributes[pk_name()] == crate::attributes::AttributeValueView::S(
            sequence_put(entry).key.0,
        ),
        sequence_put(entry).attributes[sk_name()] == crate::attributes::AttributeValueView::S(
            sequence_put(entry).key.1,
        ),
{
    crate::records::attribute_names_differ();
}

/// One caller that makes sure that the table exists, as seen from the backend.
pub enum SchemaCaller {
    /// Has not listed the tables yet.
    Listing,
    /// Has listed the tables, did not find the table, and will ask for it.
    Creating,
    /// Has returned.
    Returned(Result<(), StoreErrorView>),
}

/// One step of one caller against a backend that holds the tables `tables` and
/// does not fail: the caller lists the tables, or asks for the table to be made.
/// Each of the two is one request, and the backend answers requests one by one.
pub open spec fn caller_step(caller: SchemaCaller, tables: Set<Seq<char>>) -> (
    SchemaCaller,
    Set<Seq<char>>,
) {
    match caller {
        SchemaCaller::Listing => {
            let listing = if tables.contains(table_name()) {
                seq![table_name()]
            } else {
                Seq::<Seq<char>>::empty()
            };
            match schema_step(Ok(listing)) {
                SchemaStepView::Ready => (SchemaCaller::Returned(Ok(())), tables),
                SchemaStepView::Create(_) => (SchemaCaller::Creating, tables),
                SchemaStepView::Failed(e) => (SchemaCaller::Returned(Err(e)), tables),
            }
        },
        SchemaCaller::Creating => {
            let outcome = if tables.contains(table_name()) {
                CreateOutcomeView::AlreadyExists
            } else {
                CreateOutcomeView::Created
            };
            (SchemaCaller::Returned(creation_result(outcome)), tables.insert(table_name()))
        },
        SchemaCaller::Returned(result) => (caller, tables),
    }
}

/// Two callers against one backend. `schedule` says whose request the backend
/// answers next: `false` for the first caller, `true` for the second.
pub open spec fn run_callers(
    first: SchemaCaller,
    second: SchemaCaller,
    tables: Set<Seq<char>>,
    schedule: Seq<bool>,
) -> (SchemaCaller, SchemaCaller, Set<Seq<char>>)
    decreases schedule.len(),
{
    if schedule.len() == 0 {
        (first, second, tables)
    } else {
        let (a, b, t) = run_callers(first, second, tables, schedule.drop_last());
        if schedule.last() {
            let (b2, t2) = caller_step(b, t);
            (a, b2, t2)
        } else {
            let (a2, t2) = caller_step(a, t);
            (a2, b, t2)
        }
    }
}

/// How many turns `who` has in `schedule`.
pub open spec fn turns(schedule: Seq<bool>, who: bool) -> nat
    decreases schedule.len(),
{
    if schedule.len() == 0 {
        0
    } else {
        turns(schedule.drop_last(), who) + if schedule.last() == who {
            1nat
        } else {
            0nat
        }
    }
}

/// How far a caller has come: a caller needs at most two requests.
pub open spec fn progress(caller: SchemaCaller) -> nat {
    match caller {
        SchemaCaller::Listing => 0,
        SchemaCaller::Creating => 1,
        SchemaCaller::Returned(_) => 2,
    }
}

/// What holds of a caller at every moment: one that has returned has returned
/// success, and the table exists from then on.
pub open spec fn caller_sound(caller: SchemaCaller, tables: Set<Seq<char>>) -> bool {
    caller matches SchemaCaller::Returned(result) ==> result == Ok::<(), StoreErrorView>(())
        && tables.contains(table_name())
}

/// Making sure that the table exists is idempotent and tolerates a race. Two
/// callers start against a backend that does not fail, and their requests are
/// answered in any order, one after the other or interleaved. Once each has had
/// its two turns, both have returned success, and the backend holds the tables
/// that it held before and the one table, no more.
pub proof fn schema_creation_is_idempotent(tables: Set<Seq<char>>, schedule: Seq<bool>)
    ensures
        ({
            let (first, second, after) = run_callers(
                SchemaCaller::Listing,
                SchemaCaller::Listing,
                tables,
                schedule,
            );
            &&& caller_sound(first, after)
            &&& caller_sound(second, after)
            &&& progress(first) >= if turns(schedule, false) < 2 {
                turns(schedule, false)
            } else {
                2
            }
            &&& progress(second) >= if turns(schedule, true) < 2 {
                turns(schedule, true)
            } else {
                2
            }
            &&& after == tables || after == tables.insert(table_name())
            &&& (turns(schedule, false) >= 2 && turns(schedule, true) >= 2 ==> first
                == SchemaCaller::Returned(Ok(())) && second == SchemaCaller::Returned(Ok(()))
                && after == tables.insert(table_name()))
        }),
    decreases schedule.len(),
{
    if schedule.len() > 0 {
        schema_creation_is_idempotent(tables, schedule.drop_last());
        let (a, b, t) = run_callers(
            SchemaCaller::Listing,
            SchemaCaller::Listing,
            tables,
            schedule.drop_last(),
        );
        assert(seq![table_name()].contains(table_name())) by {
            assert(seq![table_name()][0] == table_name());
        }
        assert(tables.insert(table_name()).insert(table_name()) =~= tables.insert(table_name()));
        let (a2, b2, t2) = run_callers(
            SchemaCaller::Listing,
            SchemaCaller::Listing,
            tables,
            schedule,
        );
        if t.contains(table_name()) {
            assert(t.insert(table_name()) =~= t);
        }
        if t2.contains(table_name()) && t2 == tables {
            assert(tables.insert(table_name()) =~= tables);
        }
    }
}

} // verus!
