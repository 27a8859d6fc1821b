//! Resolving an alias to the sequence that it names and what is known of it.
//!
//! A lookup is a short conversation with the store: read the alias, read the
//! sequence that it names, list the aliases of that sequence. This module decides
//! each next read from the answer to the last one, and the result from the last
//! answer. It keeps nothing between lookups.

use crate::attributes::{AttributeMap, Item};
use crate::keys::{
    alias_sort_key, encode, invalid_key, join_alias, tags_are_distinct, InputError, NaturalKey,
    NaturalKeyView, ObjectType, StoreKey,
};
use crate::records::{
    ConversionErrorView, DynamodbConversionError, FastadirEntry, FastadirEntryView, SeqAlias,
    SeqAliasView,
};
use crate::store::{table_get, StoreError, StoreErrorView, Table};
use vstd::prelude::*;
use vstd::string::*;

verus! {

/// What is known of a sequence, with all the aliases that name it.
#[derive(Debug, Clone, PartialEq, Eq)]
pub struct SequenceMetadata {
    /// The canonical identifier of the sequence.
    pub canonical_id: String,
    /// The length of the sequence, in residues.
    pub length: u64,
    pub alphabet: String,
    pub added: String,
    /// The sort keys of the aliases of the sequence, in the order in which the
    /// store listed them.
    pub aliases: Vec<String>,
}

/// The metadata of a sequence as plain data.
pub struct SequenceMetadataView {
    pub canonical_id: Seq<char>,
    pub length: u64,
    pub alphabet: Seq<char>,
    pub added: Seq<char>,
    pub aliases: Seq<Seq<char>>,
}

/// The texts of a list of strings.
pub open spec fn texts(strings: Seq<String>) -> Seq<Seq<char>> {
    Seq::new(strings.len(), |i: int| strings[i]@)
}

impl View for SequenceMetadata {
    type V = SequenceMetadataView;

    open spec fn view(&self) -> SequenceMetadataView {
        SequenceMetadataView {
            canonical_id: self.canonical_id@,
            length: self.length,
            alphabet: self.alphabet@,
            added: self.added@,
            aliases: texts(self.aliases@),
        }
    }
}

/// An alias in its written form, namespace and name joined, and the sequence that
/// it names.
#[derive(Debug, Clone, PartialEq, Eq)]
pub struct SequenceAlias {
    pub alias: String,
    pub seq_id: String,
}

impl View for SequenceAlias {
    type V = (Seq<char>, Seq<char>);

    open spec fn view(&self) -> (Seq<char>, Seq<char>) {
        (self.alias@, self.seq_id@)
    }
}

impl SequenceAlias {
    /// The written form of an alias record.
    pub fn of_record(record: &SeqAlias) -> (written: SequenceAlias)
        ensures
            written@ == (alias_sort_key(record@.namespace, record@.alias), record@.seq_id),
    {
        SequenceAlias {
            alias: join_alias(record.namespace.as_str(), record.alias.as_str()),
            seq_id: record.seq_id.clone(),
        }
    }
}

/// Why a lookup failed. That an alias is unknown is no failure.
#[derive(Debug, Clone, PartialEq, Eq)]
pub enum SeqRepoLookupError {
    /// The namespace or the alias that was asked for is malformed.
    InvalidInput(InputError),
    /// The store answered a read of one key with more than one item.
    InvalidData(String),
    /// A stored item cannot be read as the record that it should be.
    CorruptRecord(DynamodbConversionError),
    /// The alias names a sequence of which nothing is stored.
    DanglingReference,
    /// The backend failed.
    DynamoDbError(StoreError),
}

/// A lookup error as plain data.
pub enum LookupErrorView {
    InvalidInput(InputError),
    InvalidData(Seq<char>),
    CorruptRecord(ConversionErrorView),
    DanglingReference,
    DynamoDbError(StoreErrorView),
}

impl View for SeqRepoLookupError {
    type V = LookupErrorView;

    open spec fn view(&self) -> LookupErrorView {
        match self {
            SeqRepoLookupError::InvalidInput(e) => LookupErrorView::InvalidInput(*e),
            SeqRepoLookupError::InvalidData(message) => LookupErrorView::InvalidData(message@),
            SeqRepoLookupError::CorruptRecord(e) => LookupErrorView::CorruptRecord(e@),
            SeqRepoLookupError::DanglingReference => LookupErrorView::DanglingReference,
            SeqRepoLookupError::DynamoDbError(e) => LookupErrorView::DynamoDbError(e@),
        }
    }
}

impl SeqRepoLookupError {
    /// Whether asking again may help: only a failure of the backend passes.
    pub fn is_retryable(&self) -> (retry: bool)
        ensures
            retry == (self@ is DynamoDbError),
    {
        match self {
            SeqRepoLookupError::DynamoDbError(_) => true,
            _ => false,
        }
    }
}

/// A read that the caller is to perform against the store.
#[derive(Debug, Clone, PartialEq, Eq)]
pub enum StoreRead {
    /// The item under this partition key and sort key, if there is one.
    Exact(StoreKey),
    /// All alias items whose `seq_id` is this identifier, from the alias index.
    AliasesOf(String),
}

/// A read as plain data.
pub enum StoreReadView {
    Exact((Seq<char>, Seq<char>)),
    AliasesOf(Seq<char>),
}

impl View for StoreRead {
    type V = StoreReadView;

    open spec fn view(&self) -> StoreReadView {
        match self {
            StoreRead::Exact(key) => StoreReadView::Exact(key@),
            StoreRead::AliasesOf(seq_id) => StoreReadView::AliasesOf(seq_id@),
        }
    }
}

/// Where a lookup stands while a read is under way.
#[derive(Debug, Clone, PartialEq, Eq)]
pub enum LookupState {
    /// The alias is being read.
    AwaitingAlias,
    /// The sequence that the alias names is being read.
    AwaitingSequenceInfo,
    /// The aliases of the sequence are being listed.
    AwaitingAliases(FastadirEntry),
}

/// A lookup state as plain data.
pub enum LookupStateView {
    AwaitingAlias,
    AwaitingSequenceInfo,
    AwaitingAliases(FastadirEntryView),
}

impl View for LookupState {
    type V = LookupStateView;

    open spec fn view(&self) -> LookupStateView {
        match self {
            LookupState::AwaitingAlias => LookupStateView::AwaitingAlias,
            LookupState::AwaitingSequenceInfo => LookupStateView::AwaitingSequenceInfo,
            LookupState::AwaitingAliases(info) => LookupStateView::AwaitingAliases(info@),
        }
    }
}

/// What a lookup does next.
#[derive(Debug, PartialEq, Eq)]
pub enum LookupStep {
    /// Perform the read and come back with its answer, in this state.
    Read(LookupState, StoreRead),
    /// The lookup is over. `Ok(None)` says that the alias is unknown.
    Done(Result<Option<SequenceMetadata>, SeqRepoLookupError>),
}

/// The result of a lookup as plain data.
pub type LookupResultView = Result<Option<SequenceMetadataView>, LookupErrorView>;

/// A lookup step as plain data.
pub enum LookupStepView {
    Read(LookupStateView, StoreReadView),
    Done(LookupResultView),
}

/// The result of a lookup, as plain data.
pub open spec fn result_view(
    result: Result<Option<SequenceMetadata>, SeqRepoLookupError>,
) -> LookupResultView {
    match result {
        Ok(Some(metadata)) => Ok(Some(metadata@)),
        Ok(None) => Ok(None),
        Err(e) => Err(e@),
    }
}

impl View for LookupStep {
    type V = LookupStepView;

    open spec fn view(&self) -> LookupStepView {
        match self {
            LookupStep::Read(state, read) => LookupStepView::Read(state@, read@),
            LookupStep::Done(result) => LookupStepView::Done(result_view(*result)),
        }
    }
}

/// The answer to a read as plain data: the items found, or the failure.
pub type ReplyView = Result<Seq<Item>, StoreErrorView>;

/// The items of an answer, as plain data.
pub open spec fn items_view(items: Seq<AttributeMap>) -> Seq<Item> {
    Seq::new(items.len(), |i: int| items[i]@)
}

/// The answer to a read, as plain data.
pub open spec fn reply_view(reply: Result<Vec<AttributeMap>, StoreError>) -> ReplyView {
    match reply {
        Ok(items) => Ok(items_view(items@)),
        Err(e) => Err(e@),
    }
}

/// What is reported when one key yields several items.
pub open spec fn several_items_message() -> Seq<char> {
    "Multiple items under one key -- should be impossible"@
}

/// The one item that a read of one key found, or none. More than one item is an
/// error: the table holds at most one item under a key.
pub open spec fn single_item(items: Seq<Item>) -> Result<Option<Item>, LookupErrorView> {
    if items.len() == 0 {
        Ok(None)
    } else if items.len() == 1 {
        Ok(Some(items[0]))
    } else {
        Err(LookupErrorView::InvalidData(several_items_message()))
    }
}

/// The sequence that an alias names, from the answer to the read of the alias.
pub open spec fn sequence_id_of(items: Seq<Item>) -> Result<Option<Seq<char>>, LookupErrorView> {
    match single_item(items) {
        Err(e) => Err(e),
        Ok(None) => Ok(None),
        Ok(Some(item)) => match SeqAliasView::of_item(item) {
            Ok(alias) => Ok(Some(alias.seq_id)),
            Err(e) => Err(LookupErrorView::CorruptRecord(e)),
        },
    }
}

/// The sort keys of the aliases that a listing holds, in its order. The first item
/// that cannot be read as an alias fails the whole listing.
pub open spec fn alias_names(items: Seq<Item>) -> Result<Seq<Seq<char>>, ConversionErrorView>
    decreases items.len(),
{
    if items.len() == 0 {
        Ok(Seq::<Seq<char>>::empty())
    } else {
        match alias_names(items.drop_last()) {
            Err(e) => Err(e),
            Ok(names) => match SeqAliasView::of_item(items.last()) {
                Err(e) => Err(e),
                Ok(alias) => Ok(names.push(alias.key().sort_key())),
            },
        }
    }
}

/// The metadata of a sequence, from what is stored of it and the sort keys of its
/// aliases.
pub open spec fn metadata_of(info: FastadirEntryView, aliases: Seq<Seq<char>>) -> SequenceMetadataView {
    SequenceMetadataView {
        canonical_id: info.seq_id,
        length: info.len,
        alphabet: info.alpha,
        added: info.added,
        aliases,
    }
}

/// The metadata of a sequence, from what is stored of it and the listing of its
/// aliases.
pub open spec fn sequence_metadata(info: FastadirEntryView, listing: Seq<Item>) -> Result<
    SequenceMetadataView,
    LookupErrorView,
> {
    match alias_names(listing) {
        Err(e) => Err(LookupErrorView::CorruptRecord(e)),
        Ok(names) => Ok(metadata_of(info, names)),
    }
}

/// The address of what is stored of the sequence `seq_id`.
pub open spec fn sequence_key(seq_id: Seq<char>) -> (Seq<char>, Seq<char>) {
    (ObjectType::SeqInfo.db_value(), seq_id)
}

/// The address of the alias `alias` in `namespace`.
pub open spec fn alias_key(namespace: Seq<char>, alias: Seq<char>) -> (Seq<char>, Seq<char>) {
    (ObjectType::SeqAlias.db_value(), alias_sort_key(namespace, alias))
}

/// How a lookup begins: with the read of the alias, unless the input is malformed.
pub open spec fn lookup_start(namespace: Seq<char>, alias: Seq<char>) -> LookupStepView {
    match (NaturalKeyView::SeqAlias { namespace, alias }).encoded() {
        Err(e) => LookupStepView::Done(Err(LookupErrorView::InvalidInput(e))),
        Ok(key) => LookupStepView::Read(LookupStateView::AwaitingAlias, StoreReadView::Exact(key)),
    }
}

/// How a lookup goes on from the answer to its last read.
pub open spec fn lookup_next(state: LookupStateView, reply: ReplyView) -> LookupStepView {
    match reply {
        Err(e) => LookupStepView::Done(Err(LookupErrorView::DynamoDbError(e))),
        Ok(items) => match state {
            LookupStateView::AwaitingAlias => match sequence_id_of(items) {
                Err(e) => LookupStepView::Done(Err(e)),
                Ok(None) => LookupStepView::Done(Ok(None)),
                Ok(Some(seq_id)) => LookupStepView::Read(
                    LookupStateView::AwaitingSequenceInfo,
                    StoreReadView::Exact(sequence_key(seq_id)),
                ),
            },
            LookupStateView::AwaitingSequenceInfo => match single_item(items) {
                Err(e) => LookupStepView::Done(Err(e)),
                Ok(None) => LookupStepView::Done(Err(LookupErrorView::DanglingReference)),
                Ok(Some(item)) => match FastadirEntryView::of_item(item) {
                    Err(e) => LookupStepView::Done(Err(LookupErrorView::CorruptRecord(e))),
                    Ok(info) => LookupStepView::Read(
                        LookupStateView::AwaitingAliases(info),
                        StoreReadView::AliasesOf(info.seq_id),
                    ),
                },
            },
            LookupStateView::AwaitingAliases(info) => match sequence_metadata(info, items) {
                Err(e) => LookupStepView::Done(Err(e)),
                Ok(metadata) => LookupStepView::Done(Ok(Some(metadata))),
            },
        },
    }
}

/// A failing item fails every longer listing in the same way.
pub proof fn lemma_alias_names_prefix(items: Seq<Item>, k: int)
    requires
        0 <= k <= items.len(),
        alias_names(items.take(k)) is Err,
    ensures
        alias_names(items) == alias_names(items.take(k)),
    decreases items.len() - k,
{
    if k < items.len() {
        assert(items.take(k + 1).drop_last() =~= items.take(k));
        lemma_alias_names_prefix(items, k + 1);
    } else {
        assert(items.take(k) =~= items);
    }
}

/// The one item of an answer to the read of one key.
fn single(items: &Vec<AttributeMap>) -> (found: Result<Option<&AttributeMap>, SeqRepoLookupError>)
    ensures
        match found {
            Ok(Some(item)) => single_item(items_view(items@)) == Ok::<_, LookupErrorView>(
                Some(item@),
            ),
            Ok(None) => single_item(items_view(items@)) == Ok::<Option<Item>, LookupErrorView>(
                None,
            ),
            Err(e) => single_item(items_view(items@)) == Err::<Option<Item>, _>(e@),
        },
{
    if items.len() == 0 {
        Ok(None)
    } else if items.len() == 1 {
        Ok(Some(&items[0]))
    } else {
        Err(
            SeqRepoLookupError::InvalidData(
                "Multiple items under one key -- should be impossible".to_string(),
            ),
        )
    }
}

/// Finds the sequence that an alias names, in the answer to the read of the alias.
/// `Ok(None)` says that the alias is unknown.
pub fn get_sequence_id_from_alias(matches: &Vec<AttributeMap>) -> (seq_id: Result<
    Option<String>,
    SeqRepoLookupError,
>)
    ensures
        match seq_id {
            Ok(Some(id)) => sequence_id_of(items_view(matches@)) == Ok::<_, LookupErrorView>(
                Some(id@),
            ),
            Ok(None) => sequence_id_of(items_view(matches@)) == Ok::<
                Option<Seq<char>>,
                LookupErrorView,
            >(None),
            Err(e) => sequence_id_of(items_view(matches@)) == Err::<Option<Seq<char>>, _>(e@),
        },
{
    match single(matches) {
        Err(e) => Err(e),
        Ok(None) => Ok(None),
        Ok(Some(item)) => match SeqAlias::from_attributes(item) {
            Ok(alias) => Ok(Some(alias.seq_id)),
            Err(e) => Err(SeqRepoLookupError::CorruptRecord(e)),
        },
    }
}

/// Assembles the metadata of a sequence from what is stored of it and the listing
/// of its aliases.
pub fn get_sequence_metadata(info: FastadirEntry, aliases: &Vec<AttributeMap>) -> (metadata: Result<
    SequenceMetadata,
    SeqRepoLookupError,
>)
    ensures
        match metadata {
            Ok(m) => sequence_metadata(info@, items_view(aliases@)) == Ok::<_, LookupErrorView>(
                m@,
            ),
            Err(e) => sequence_metadata(info@, items_view(aliases@)) == Err::<
                SequenceMetadataView,
                _,
            >(e@),
        },
{
    let ghost listing = items_view(aliases@);
    let mut names: Vec<String> = Vec::new();
    let mut i: usize = 0;
    assert(listing.take(0) =~= Seq::<Item>::empty());
    assert(texts(names@) =~= Seq::<Seq<char>>::empty());
    while i < aliases.len()
        invariant
            i <= aliases@.len(),
            listing == items_view(aliases@),
            alias_names(listing.take(i as int)) == Ok::<_, ConversionErrorView>(texts(names@)),
        decreases aliases@.len() - i,
    {
        proof {
            assert(listing.take(i + 1).drop_last() =~= listing.take(i as int));
            assert(listing.take(i + 1).last() == aliases@[i as int]@);
        }
        match SeqAlias::from_attributes(&aliases[i]) {
            Err(e) => {
                proof {
                    lemma_alias_names_prefix(listing, i + 1);
                }
                return Err(SeqRepoLookupError::CorruptRecord(e));
            },
            Ok(alias) => {
                let ghost before = texts(names@);
                let written = SequenceAlias::of_record(&alias);
                names.push(written.alias);
                assert(texts(names@) =~= before.push(alias@.key().sort_key()));
            },
        }
        i += 1;
    }
    assert(listing.take(i as int) =~= listing);
    Ok(
        SequenceMetadata {
            canonical_id: info.seq_id,
            length: info.len,
            alphabet: info.alpha,
            added: info.added,
            aliases: names,
        },
    )
}

/// Begins the lookup of `alias` in `namespace`.
pub fn resolve_alias(namespace: &str, alias: &str) -> (step: LookupStep)
    ensures
        step@ == lookup_start(namespace@, alias@),
{
    let key = NaturalKey::SeqAlias { namespace: namespace.to_string(), alias: alias.to_string() };
    match encode(&key) {
        Err(e) => LookupStep::Done(Err(SeqRepoLookupError::InvalidInput(e))),
        Ok(address) => LookupStep::Read(LookupState::AwaitingAlias, StoreRead::Exact(address)),
    }
}

/// Goes on with a lookup: `reply` is the store's answer to the read that the last
/// step asked for, `state` the state that the last step gave.
pub fn lookup_step(state: LookupState, reply: Result<Vec<AttributeMap>, StoreError>) -> (step:
    LookupStep)
    ensures
        step@ == lookup_next(state@, reply_view(reply)),
{
    let items = match reply {
        Err(e) => {
            return LookupStep::Done(Err(SeqRepoLookupError::DynamoDbError(e)));
        },
        Ok(items) => items,
    };
    match state {
        LookupState::AwaitingAlias => match get_sequence_id_from_alias(&items) {
            Err(e) => LookupStep::Done(Err(e)),
            Ok(None) => LookupStep::Done(Ok(None)),
            Ok(Some(seq_id)) => LookupStep::Read(
                LookupState::AwaitingSequenceInfo,
                StoreRead::Exact(
                    StoreKey {
                        partition_key: ObjectType::SeqInfo.to_db_value(),
                        sort_key: seq_id,
                    },
                ),
            ),
        },
        LookupState::AwaitingSequenceInfo => match single(&items) {
            Err(e) => LookupStep::Done(Err(e)),
            Ok(None) => LookupStep::Done(Err(SeqRepoLookupError::DanglingReference)),
            Ok(Some(item)) => match FastadirEntry::from_attributes(item) {
                Err(e) => LookupStep::Done(Err(SeqRepoLookupError::CorruptRecord(e))),
                Ok(info) => {
                    let seq_id = info.seq_id.clone();
                    LookupStep::Read(
                        LookupState::AwaitingAliases(info),
                        StoreRead::AliasesOf(seq_id),
                    )
                },
            },
        },
        LookupState::AwaitingAliases(info) => match get_sequence_metadata(info, &items) {
            Err(e) => LookupStep::Done(Err(e)),
            Ok(metadata) => LookupStep::Done(Ok(Some(metadata))),
        },
    }
}

/// How many reads a lookup may still make.
pub open spec fn reads_left(step: LookupStepView) -> nat {
    match step {
        LookupStepView::Done(_) => 0,
        LookupStepView::Read(LookupStateView::AwaitingAlias, _) => 3,
        LookupStepView::Read(LookupStateView::AwaitingSequenceInfo, _) => 2,
        LookupStepView::Read(LookupStateView::AwaitingAliases(_), _) => 1,
    }
}

/// A lookup makes at most three reads: each step leaves fewer to make.
pub proof fn lookup_is_short(state: LookupStateView, read: StoreReadView, reply: ReplyView)
    ensures
        reads_left(lookup_next(state, reply)) < reads_left(LookupStepView::Read(state, read)) <= 3,
{
}

/// The answer of a store that holds `table` and does not fail. `listing` is what
/// its alias index lists for the sequence that is asked for.
pub open spec fn answer(table: Table, listing: Seq<Item>, read: StoreReadView) -> ReplyView {
    match read {
        StoreReadView::Exact(key) => Ok(table_get(table, key)),
        StoreReadView::AliasesOf(_) => Ok(listing),
    }
}

/// The result of a lookup that goes on from `step` against such a store.
pub open spec fn finish(step: LookupStepView, table: Table, listing: Seq<Item>) -> LookupResultView
    decreases reads_left(step),
{
    match step {
        LookupStepView::Done(result) => result,
        LookupStepView::Read(state, read) => finish(
            lookup_next(state, answer(table, listing, read)),
            table,
            listing,
        ),
    }
}

/// The result of the lookup of `alias` in `namespace` against a store that holds
/// `table` and does not fail.
pub open spec fn resolve_in(
    table: Table,
    listing: Seq<Item>,
    namespace: Seq<char>,
    alias: Seq<char>,
) -> LookupResultView {
    finish(lookup_start(namespace, alias), table, listing)
}

/// An alias that is not stored is unknown, and that is no error: the lookup of a
/// well-formed namespace and alias under which the table holds nothing ends in
/// `Ok(None)`, after one read.
pub proof fn unknown_alias_is_not_found(
    table: Table,
    listing: Seq<Item>,
    namespace: Seq<char>,
    alias: Seq<char>,
)
    requires
        (NaturalKeyView::SeqAlias { namespace, alias }).valid(),
        !table.contains_key(alias_key(namespace, alias)),
    ensures
        resolve_in(table, listing, namespace, alias) == Ok::<Option<SequenceMetadataView>, LookupErrorView>(None),
{
    reveal_with_fuel(finish, 3);
}

/// A malformed namespace or alias is refused before anything is read.
pub proof fn malformed_alias_is_refused(
    table: Table,
    listing: Seq<Item>,
    namespace: Seq<char>,
    alias: Seq<char>,
)
    requires
        !(NaturalKeyView::SeqAlias { namespace, alias }).valid(),
    ensures
        resolve_in(table, listing, namespace, alias) == Err::<Option<SequenceMetadataView>, _>(
            LookupErrorView::InvalidInput(invalid_key()),
        ),
{
    reveal_with_fuel(finish, 3);
}

/// An alias that names a sequence of which nothing is stored is reported as a
/// dangling reference, which is neither "unknown" nor any other error.
pub proof fn dangling_reference_is_reported(
    table: Table,
    listing: Seq<Item>,
    namespace: Seq<char>,
    alias: Seq<char>,
)
    requires
        (NaturalKeyView::SeqAlias { namespace, alias }).valid(),
        table.contains_key(alias_key(namespace, alias)),
        SeqAliasView::of_item(table[alias_key(namespace, alias)]) is Ok,
        !table.contains_key(
            sequence_key(SeqAliasView::of_item(table[alias_key(namespace, alias)])->Ok_0.seq_id),
        ),
    ensures
        resolve_in(table, listing, namespace, alias) == Err::<Option<SequenceMetadataView>, _>(
            LookupErrorView::DanglingReference,
        ),
        resolve_in(table, listing, namespace, alias) != Ok::<Option<SequenceMetadataView>, LookupErrorView>(None),
{
    reveal_with_fuel(finish, 3);
}

/// Where the alias and the sequence that it names are both stored and readable,
/// and the alias index lists readable aliases, the lookup gives the metadata of
/// that sequence.
pub proof fn stored_alias_resolves(
    table: Table,
    listing: Seq<Item>,
    namespace: Seq<char>,
    alias: Seq<char>,
)
    requires
        (NaturalKeyView::SeqAlias { namespace, alias }).valid(),
        table.contains_key(alias_key(namespace, alias)),
        SeqAliasView::of_item(table[alias_key(namespace, alias)]) is Ok,
        table.contains_key(
            sequence_key(SeqAliasView::of_item(table[alias_key(namespace, alias)])->Ok_0.seq_id),
        ),
        FastadirEntryView::of_item(
            table[sequence_key(
                SeqAliasView::of_item(table[alias_key(namespace, alias)])->Ok_0.seq_id,
            )],
        ) is Ok,
        alias_names(listing) is Ok,
    ensures
        resolve_in(table, listing, namespace, alias) == Ok::<_, LookupErrorView>(
            Some(
                metadata_of(
                    FastadirEntryView::of_item(
                        table[sequence_key(
                            SeqAliasView::of_item(table[alias_key(namespace, alias)])->Ok_0.seq_id,
                        )],
                    )->Ok_0,
                    alias_names(listing)->Ok_0,
                ),
            ),
        ),
{
    reveal_with_fuel(finish, 4);
}

/// The two kinds of record never share an address.
pub proof fn kinds_have_separate_addresses(namespace: Seq<char>, alias: Seq<char>, seq_id: Seq<char>)
    ensures
        alias_key(namespace, alias) != sequence_key(seq_id),
{
    tags_are_distinct();
}

} // verus!
