//! A whole import run as plain data, against a store that does not fail, and what
//! holds of every such run: what it counts, where it stops, and that what it
//! wrote can be looked up.

use crate::attributes::Item;
use crate::import::{
    import_next, one_more, ImportActionView, ImportErrorView, ImportEventView, ImportStateView,
    ImportSummary, PathKind, SourceLayout,
};
use crate::keys::{encoding_is_injective, tags_are_distinct, ObjectType};
use crate::lookup::{
    alias_key, alias_names, metadata_of, resolve_in, sequence_key, stored_alias_resolves,
    LookupErrorView,
};
use crate::records::{
    alias_round_trip, sequence_info_round_trip, FastadirEntryView, SeqAliasView,
};
use crate::store::{alias_put, sequence_put, table_put, Table};
use vstd::prelude::*;

verus! {

/// What the source reports for a row of the table of aliases. `None` is a row that
/// cannot be read.
pub open spec fn alias_event(row: Option<SeqAliasView>) -> ImportEventView {
    match row {
        Some(alias) => ImportEventView::AliasRow(alias),
        None => ImportEventView::RowFailed,
    }
}

/// What the source reports for a row of the table of sequences. `None` is a row
/// that cannot be read.
pub open spec fn sequence_event(row: Option<FastadirEntryView>) -> ImportEventView {
    match row {
        Some(entry) => ImportEventView::SequenceRow(entry),
        None => ImportEventView::RowFailed,
    }
}

/// A run over the rows `rows` of the table of aliases, from `state`, against a
/// store that holds `table` and does not fail: each row is reported, each item
/// that the run asks to write is written and reported as written. The run goes on
/// until the rows end or the run stops.
pub open spec fn feed_aliases(
    state: ImportStateView,
    table: Table,
    rows: Seq<Option<SeqAliasView>>,
) -> (ImportStateView, Table)
    decreases rows.len(),
{
    if rows.len() == 0 {
        (state, table)
    } else {
        let (reading, action) = import_next(state, alias_event(rows[0]));
        match action {
            ImportActionView::Put(put) => feed_aliases(
                import_next(reading, ImportEventView::PutDone).0,
                table_put(table, put),
                rows.drop_first(),
            ),
            _ => (reading, table),
        }
    }
}

/// The same over the rows of the table of sequences.
pub open spec fn feed_sequences(
    state: ImportStateView,
    table: Table,
    rows: Seq<Option<FastadirEntryView>>,
) -> (ImportStateView, Table)
    decreases rows.len(),
{
    if rows.len() == 0 {
        (state, table)
    } else {
        let (reading, action) = import_next(state, sequence_event(rows[0]));
        match action {
            ImportActionView::Put(put) => feed_sequences(
                import_next(reading, ImportEventView::PutDone).0,
                table_put(table, put),
                rows.drop_first(),
            ),
            _ => (reading, table),
        }
    }
}

/// The state of a run that has found its source complete.
pub open spec fn begun() -> ImportStateView {
    ImportStateView::ImportingAliases { written: 0, writing: false }
}

/// A whole run over a source that has all its parts and holds the given rows,
/// against a store that holds `table` and does not fail: the state in which the
/// run ends, and the table that it leaves.
pub open spec fn run_import(
    table: Table,
    aliases: Seq<Option<SeqAliasView>>,
    sequences: Seq<Option<FastadirEntryView>>,
) -> (ImportStateView, Table) {
    let complete = SourceLayout {
        aliases_db: PathKind::File,
        sequences_dir: PathKind::Directory,
        sequences_db: PathKind::File,
    };
    let begun = import_next(ImportStateView::Validating, ImportEventView::Layout(complete)).0;
    let (after_aliases, with_aliases) = feed_aliases(begun, table, aliases);
    let between = import_next(after_aliases, ImportEventView::EndOfRows).0;
    let (after_sequences, with_sequences) = feed_sequences(between, with_aliases, sequences);
    (import_next(after_sequences, ImportEventView::EndOfRows).0, with_sequences)
}

/// Rows that can all be read.
pub open spec fn read<T>(rows: Seq<T>) -> Seq<Option<T>> {
    Seq::new(rows.len(), |i: int| Some(rows[i]))
}

/// Whether a row of the table of aliases can be read and stored.
pub open spec fn storable(row: Option<SeqAliasView>) -> bool {
    match row {
        Some(alias) => alias.valid(),
        None => false,
    }
}

/// Whether every row of `rows` can be read and stored.
pub open spec fn all_storable(rows: Seq<Option<SeqAliasView>>) -> bool {
    forall|i: int| 0 <= i < rows.len() ==> storable(#[trigger] rows[i])
}

/// Whether every row of `rows` can be read.
pub open spec fn all_readable(rows: Seq<Option<FastadirEntryView>>) -> bool {
    forall|i: int| 0 <= i < rows.len() ==> (#[trigger] rows[i]) is Some
}

/// Whether every alias of `rows` can be stored.
pub open spec fn all_valid(rows: Seq<SeqAliasView>) -> bool {
    forall|i: int| 0 <= i < rows.len() ==> (#[trigger] rows[i]).valid()
}

/// A counter after `more` more records, as far as it reaches.
pub open spec fn counted(start: u64, more: nat) -> u64 {
    if start + more <= u64::MAX {
        (start + more) as u64
    } else {
        u64::MAX
    }
}

/// Whether no row of `rows` is stored under `key`.
pub open spec fn no_alias_under(rows: Seq<Option<SeqAliasView>>, key: (Seq<char>, Seq<char>)) -> bool {
    forall|i: int|
        0 <= i < rows.len() ==> alias_key(
            (#[trigger] rows[i])->0.namespace,
            rows[i]->0.alias,
        ) != key
}

/// Whether no row of `rows` is stored under `key`.
pub open spec fn no_sequence_under(
    rows: Seq<Option<FastadirEntryView>>,
    key: (Seq<char>, Seq<char>),
) -> bool {
    forall|i: int| 0 <= i < rows.len() ==> sequence_key((#[trigger] rows[i])->0.seq_id) != key
}

/// Whether the row `at` is the last of `rows` for its namespace and alias.
pub open spec fn last_of_its_alias(rows: Seq<SeqAliasView>, at: int) -> bool {
    forall|k: int| at < k < rows.len() ==> (#[trigger] rows[k]).key() != rows[at].key()
}

/// Whether the row `at` is the last of `rows` for its sequence.
pub open spec fn last_of_its_sequence(rows: Seq<FastadirEntryView>, at: int) -> bool {
    forall|k: int| at < k < rows.len() ==> (#[trigger] rows[k]).seq_id != rows[at].seq_id
}

/// Whether no row after `at` gives the namespace and alias of row `at` to another
/// sequence.
pub open spec fn not_superseded(rows: Seq<SeqAliasView>, at: int) -> bool {
    forall|k: int|
        at < k < rows.len() && (#[trigger] rows[k]).key() == rows[at].key() ==> rows[k].seq_id
            == rows[at].seq_id
}

/// Whether some row of `rows` is about the sequence `seq_id`.
pub open spec fn holds_sequence(rows: Seq<FastadirEntryView>, seq_id: Seq<char>) -> bool {
    exists|j: int| 0 <= j < rows.len() && (#[trigger] rows[j]).seq_id == seq_id
}

/// The rows after the first are as good as all the rows.
proof fn lemma_rest_storable(rows: Seq<Option<SeqAliasView>>)
    requires
        rows.len() > 0,
        all_storable(rows),
    ensures
        all_storable(rows.drop_first()),
{
    let rest = rows.drop_first();
    assert forall|i: int| 0 <= i < rest.len() implies storable(#[trigger] rest[i]) by {
        assert(rest[i] == rows[i + 1]);
    }
}

/// The rows after the first are as good as all the rows.
proof fn lemma_rest_readable(rows: Seq<Option<FastadirEntryView>>)
    requires
        rows.len() > 0,
        all_readable(rows),
    ensures
        all_readable(rows.drop_first()),
{
    let rest = rows.drop_first();
    assert forall|i: int| 0 <= i < rest.len() implies (#[trigger] rest[i]) is Some by {
        assert(rest[i] == rows[i + 1]);
    }
}

/// Feeding rows that can all be stored leaves the run importing aliases, with
/// every row counted.
pub proof fn lemma_feed_aliases_counts(written: u64, table: Table, rows: Seq<Option<SeqAliasView>>)
    requires
        all_storable(rows),
    ensures
        feed_aliases(ImportStateView::ImportingAliases { written, writing: false }, table, rows).0
            == (ImportStateView::ImportingAliases {
            written: counted(written, rows.len()),
            writing: false,
        }),
    decreases rows.len(),
{
    if rows.len() > 0 {
        assert(storable(rows[0]));
        lemma_rest_storable(rows);
        lemma_feed_aliases_counts(
            one_more(written),
            table_put(table, alias_put(rows[0]->0)->Ok_0),
            rows.drop_first(),
        );
    }
}

/// Feeding rows that can all be read leaves the run importing sequences, with
/// every row counted.
pub proof fn lemma_feed_sequences_counts(
    aliases: u64,
    written: u64,
    table: Table,
    rows: Seq<Option<FastadirEntryView>>,
)
    requires
        all_readable(rows),
    ensures
        feed_sequences(
            ImportStateView::ImportingSequenceInfo { aliases, written, writing: false },
            table,
            rows,
        ).0 == (ImportStateView::ImportingSequenceInfo {
            aliases,
            written: counted(written, rows.len()),
            writing: false,
        }),
    decreases rows.len(),
{
    if rows.len() > 0 {
        assert(rows[0] is Some);
        lemma_rest_readable(rows);
        lemma_feed_sequences_counts(
            aliases,
            one_more(written),
            table_put(table, sequence_put(rows[0]->0)),
            rows.drop_first(),
        );
    }
}

/// Feeding aliases leaves alone what the table holds under a key that no row has.
pub proof fn lemma_feed_aliases_frame(
    written: u64,
    table: Table,
    rows: Seq<Option<SeqAliasView>>,
    key: (Seq<char>, Seq<char>),
)
    requires
        all_storable(rows),
        no_alias_under(rows, key),
    ensures
        ({
            let after = feed_aliases(
                ImportStateView::ImportingAliases { written, writing: false },
                table,
                rows,
            ).1;
            &&& after.contains_key(key) == table.contains_key(key)
            &&& table.contains_key(key) ==> after[key] == table[key]
        }),
    decreases rows.len(),
{
    if rows.len() > 0 {
        let rest = rows.drop_first();
        assert(storable(rows[0]));
        assert(alias_key(rows[0]->0.namespace, rows[0]->0.alias) != key);
        lemma_rest_storable(rows);
        assert(no_alias_under(rest, key)) by {
            assert forall|i: int| 0 <= i < rest.len() implies alias_key(
                (#[trigger] rest[i])->0.namespace,
                rest[i]->0.alias,
            ) != key by {
                assert(rest[i] == rows[i + 1]);
            }
        }
        lemma_feed_aliases_frame(
            one_more(written),
            table_put(table, alias_put(rows[0]->0)->Ok_0),
            rest,
            key,
        );
    }
}

/// Feeding aliases stores each row that is the last for its namespace and alias.
pub proof fn lemma_feed_aliases_stores(
    written: u64,
    table: Table,
    rows: Seq<SeqAliasView>,
    at: int,
)
    requires
        all_valid(rows),
        0 <= at < rows.len(),
        last_of_its_alias(rows, at),
    ensures
        ({
            let after = feed_aliases(
                ImportStateView::ImportingAliases { written, writing: false },
                table,
                read(rows),
            ).1;
            let key = alias_key(rows[at].namespace, rows[at].alias);
            after.contains_key(key) && after[key] == rows[at].item()
        }),
    decreases rows.len(),
{
    let rest = rows.drop_first();
    let key = alias_key(rows[at].namespace, rows[at].alias);
    let table1 = table_put(table, alias_put(rows[0])->Ok_0);
    assert(rows[0].valid());
    assert(read(rows)[0] == Some(rows[0]));
    assert(read(rows).drop_first() =~= read(rest));
    assert(all_valid(rest)) by {
        assert forall|i: int| 0 <= i < rest.len() implies (#[trigger] rest[i]).valid() by {
            assert(rest[i] == rows[i + 1]);
        }
    }
    if at == 0 {
        lemma_read_is_storable(rest);
        assert(no_alias_under(read(rest), key)) by {
            assert forall|i: int| 0 <= i < rest.len() implies alias_key(
                (#[trigger] read(rest)[i])->0.namespace,
                read(rest)[i]->0.alias,
            ) != key by {
                assert(rest[i] == rows[i + 1]);
                assert(rows[i + 1].valid());
                assert(rows[i + 1].key() != rows[0].key());
                if alias_key(rows[i + 1].namespace, rows[i + 1].alias) == key {
                    encoding_is_injective(rows[i + 1].key(), rows[0].key());
                }
            }
        }
        assert(table1.contains_key(key) && table1[key] == rows[0].item());
        lemma_feed_aliases_frame(one_more(written), table1, read(rest), key);
    } else {
        assert(rest[at - 1] == rows[at]);
        assert(last_of_its_alias(rest, at - 1)) by {
            assert forall|k: int| at - 1 < k < rest.len() implies (#[trigger] rest[k]).key()
                != rest[at - 1].key() by {
                assert(rest[k] == rows[k + 1]);
            }
        }
        lemma_feed_aliases_stores(one_more(written), table1, rest, at - 1);
    }
}

/// Aliases that can be stored, once read, are rows that can be read and stored.
pub proof fn lemma_read_is_storable(rows: Seq<SeqAliasView>)
    requires
        all_valid(rows),
    ensures
        all_storable(read(rows)),
{
    assert forall|i: int| 0 <= i < read(rows).len() implies storable(#[trigger] read(rows)[i]) by {
        assert(rows[i].valid());
    }
}

/// Feeding sequences leaves alone what the table holds under a key that no row
/// has.
pub proof fn lemma_feed_sequences_frame(
    aliases: u64,
    written: u64,
    table: Table,
    rows: Seq<Option<FastadirEntryView>>,
    key: (Seq<char>, Seq<char>),
)
    requires
        all_readable(rows),
        no_sequence_under(rows, key),
    ensures
        ({
            let after = feed_sequences(
                ImportStateView::ImportingSequenceInfo { aliases, written, writing: false },
                table,
                rows,
            ).1;
            &&& after.contains_key(key) == table.contains_key(key)
            &&& table.contains_key(key) ==> after[key] == table[key]
        }),
    decreases rows.len(),
{
    if rows.len() > 0 {
        let rest = rows.drop_first();
        assert(rows[0] is Some);
        assert(sequence_key(rows[0]->0.seq_id) != key);
        lemma_rest_readable(rows);
        assert(no_sequence_under(rest, key)) by {
            assert forall|i: int| 0 <= i < rest.len() implies sequence_key(
                (#[trigger] rest[i])->0.seq_id,
            ) != key by {
                assert(rest[i] == rows[i + 1]);
            }
        }
        lemma_feed_sequences_frame(
            aliases,
            one_more(written),
            table_put(table, sequence_put(rows[0]->0)),
            rest,
            key,
        );
    }
}

/// Feeding sequences stores each row that is the last for its sequence.
pub proof fn lemma_feed_sequences_stores(
    aliases: u64,
    written: u64,
    table: Table,
    rows: Seq<FastadirEntryView>,
    at: int,
)
    requires
        0 <= at < rows.len(),
        last_of_its_sequence(rows, at),
    ensures
        ({
            let after = feed_sequences(
                ImportStateView::ImportingSequenceInfo { aliases, written, writing: false },
                table,
                read(rows),
            ).1;
            let key = sequence_key(rows[at].seq_id);
            after.contains_key(key) && after[key] == rows[at].item()
        }),
    decreases rows.len(),
{
    let rest = rows.drop_first();
    let key = sequence_key(rows[at].seq_id);
    let table1 = table_put(table, sequence_put(rows[0]));
    assert(read(rows)[0] == Some(rows[0]));
    assert(read(rows).drop_first() =~= read(rest));
    if at == 0 {
        assert(all_readable(read(rest)));
        assert(no_sequence_under(read(rest), key)) by {
            assert forall|i: int| 0 <= i < rest.len() implies sequence_key(
                (#[trigger] read(rest)[i])->0.seq_id,
            ) != key by {
                assert(rest[i] == rows[i + 1]);
                assert(rows[i + 1].seq_id != rows[0].seq_id);
            }
        }
        assert(table1.contains_key(key) && table1[key] == rows[0].item());
        lemma_feed_sequences_frame(aliases, one_more(written), table1, read(rest), key);
    } else {
        assert(rest[at - 1] == rows[at]);
        assert(last_of_its_sequence(rest, at - 1)) by {
            assert forall|k: int| at - 1 < k < rest.len() implies (#[trigger] rest[k]).seq_id
                != rest[at - 1].seq_id by {
                assert(rest[k] == rows[k + 1]);
            }
        }
        lemma_feed_sequences_stores(aliases, one_more(written), table1, rest, at - 1);
    }
}

/// Feeding aliases stops at the first row that cannot be read or stored: the run
/// fails, and the table is what the rows before that row have made of it.
pub proof fn lemma_feed_aliases_stops(
    written: u64,
    table: Table,
    rows: Seq<Option<SeqAliasView>>,
    at: int,
)
    requires
        0 <= at < rows.len(),
        all_storable(rows.take(at)),
        !storable(rows[at]),
    ensures
        feed_aliases(ImportStateView::ImportingAliases { written, writing: false }, table, rows)
            == (
            ImportStateView::Failed(ImportErrorView::SourceReadFailure),
            feed_aliases(
                ImportStateView::ImportingAliases { written, writing: false },
                table,
                rows.take(at),
            ).1,
        ),
    decreases at,
{
    if at > 0 {
        assert(rows.take(at)[0] == rows[0]);
        assert(storable(rows[0]));
        lemma_rest_storable(rows.take(at));
        assert(rows.take(at).drop_first() =~= rows.drop_first().take(at - 1));
        lemma_feed_aliases_stops(
            one_more(written),
            table_put(table, alias_put(rows[0]->0)->Ok_0),
            rows.drop_first(),
            at - 1,
        );
    }
}

/// Feeding sequences stops at the first row that cannot be read: the run fails,
/// and the table is what the rows before that row have made of it.
pub proof fn lemma_feed_sequences_stops(
    aliases: u64,
    written: u64,
    table: Table,
    rows: Seq<Option<FastadirEntryView>>,
    at: int,
)
    requires
        0 <= at < rows.len(),
        all_readable(rows.take(at)),
        rows[at] is None,
    ensures
        feed_sequences(
            ImportStateView::ImportingSequenceInfo { aliases, written, writing: false },
            table,
            rows,
        ) == (
            ImportStateView::Failed(ImportErrorView::SourceReadFailure),
            feed_sequences(
                ImportStateView::ImportingSequenceInfo { aliases, written, writing: false },
                table,
                rows.take(at),
            ).1,
        ),
    decreases at,
{
    if at > 0 {
        assert(rows.take(at)[0] == rows[0]);
        assert(rows[0] is Some);
        lemma_rest_readable(rows.take(at));
        assert(rows.take(at).drop_first() =~= rows.drop_first().take(at - 1));
        lemma_feed_sequences_stops(
            aliases,
            one_more(written),
            table_put(table, sequence_put(rows[0]->0)),
            rows.drop_first(),
            at - 1,
        );
    }
}

/// The address of the alias item with the sort key `sort_key`.
pub open spec fn alias_slot(sort_key: Seq<char>) -> (Seq<char>, Seq<char>) {
    (ObjectType::SeqAlias.db_value(), sort_key)
}

/// Whether every alias item of `table` can be read as an alias.
pub open spec fn aliases_readable(table: Table) -> bool {
    forall|sort_key: Seq<char>| #[trigger]
        table.contains_key(alias_slot(sort_key)) ==> SeqAliasView::of_item(
            table[alias_slot(sort_key)],
        ) is Ok
}

/// Whether `listing` lists alias items of `table` and nothing else, as an index
/// over the table does.
pub open spec fn listed_in(table: Table, listing: Seq<Item>) -> bool {
    forall|i: int|
        0 <= i < listing.len() ==> exists|sort_key: Seq<char>| #[trigger]
            table.contains_key(alias_slot(sort_key)) && table[alias_slot(sort_key)]
                == #[trigger] listing[i]
}

/// Writing an alias that can be stored keeps the alias items readable.
proof fn lemma_alias_put_keeps_readable(table: Table, alias: SeqAliasView)
    requires
        alias.valid(),
        aliases_readable(table),
    ensures
        aliases_readable(table_put(table, alias_put(alias)->Ok_0)),
{
    let after = table_put(table, alias_put(alias)->Ok_0);
    alias_round_trip(alias);
    assert forall|sort_key: Seq<char>| #[trigger]
        after.contains_key(alias_slot(sort_key)) implies SeqAliasView::of_item(
        after[alias_slot(sort_key)],
    ) is Ok by {
        if alias_slot(sort_key) != alias_put(alias)->Ok_0.key {
            assert(table.contains_key(alias_slot(sort_key)));
        }
    }
}

/// Writing what is known of a sequence keeps the alias items readable.
proof fn lemma_sequence_put_keeps_readable(table: Table, entry: FastadirEntryView)
    requires
        aliases_readable(table),
    ensures
        aliases_readable(table_put(table, sequence_put(entry))),
{
    let after = table_put(table, sequence_put(entry));
    tags_are_distinct();
    assert forall|sort_key: Seq<char>| #[trigger]
        after.contains_key(alias_slot(sort_key)) implies SeqAliasView::of_item(
        after[alias_slot(sort_key)],
    ) is Ok by {
        assert(table.contains_key(alias_slot(sort_key)));
    }
}

/// Feeding aliases that can all be stored keeps the alias items readable.
pub proof fn lemma_feed_aliases_keeps_readable(
    written: u64,
    table: Table,
    rows: Seq<Option<SeqAliasView>>,
)
    requires
        all_storable(rows),
        aliases_readable(table),
    ensures
        aliases_readable(
            feed_aliases(ImportStateView::ImportingAliases { written, writing: false }, table, rows).1,
        ),
    decreases rows.len(),
{
    if rows.len() > 0 {
        assert(storable(rows[0]));
        lemma_rest_storable(rows);
        lemma_alias_put_keeps_readable(table, rows[0]->0);
        lemma_feed_aliases_keeps_readable(
            one_more(written),
            table_put(table, alias_put(rows[0]->0)->Ok_0),
            rows.drop_first(),
        );
    }
}

/// Feeding sequences keeps the alias items readable.
pub proof fn lemma_feed_sequences_keeps_readable(
    aliases: u64,
    written: u64,
    table: Table,
    rows: Seq<Option<FastadirEntryView>>,
)
    requires
        all_readable(rows),
        aliases_readable(table),
    ensures
        aliases_readable(
            feed_sequences(
                ImportStateView::ImportingSequenceInfo { aliases, written, writing: false },
                table,
                rows,
            ).1,
        ),
    decreases rows.len(),
{
    if rows.len() > 0 {
        assert(rows[0] is Some);
        lemma_rest_readable(rows);
        lemma_sequence_put_keeps_readable(table, rows[0]->0);
        lemma_feed_sequences_keeps_readable(
            aliases,
            one_more(written),
            table_put(table, sequence_put(rows[0]->0)),
            rows.drop_first(),
        );
    }
}

/// A listing over a table whose alias items are readable holds readable aliases.
pub proof fn lemma_listing_is_readable(table: Table, listing: Seq<Item>)
    requires
        aliases_readable(table),
        listed_in(table, listing),
    ensures
        alias_names(listing) is Ok,
    decreases listing.len(),
{
    if listing.len() > 0 {
        let shorter = listing.drop_last();
        assert(listed_in(table, shorter)) by {
            assert forall|i: int| 0 <= i < shorter.len() implies exists|sort_key: Seq<char>|
                #[trigger] table.contains_key(alias_slot(sort_key)) && table[alias_slot(sort_key)]
                    == #[trigger] shorter[i] by {
                assert(shorter[i] == listing[i]);
            }
        }
        lemma_listing_is_readable(table, shorter);
        assert(SeqAliasView::of_item(listing[listing.len() - 1]) is Ok);
    }
}

/// What the alias index lists after an import is readable. A run imports rows
/// that can all be read and stored into a table whose alias items are readable,
/// as those of an empty table are. Then whatever lists alias items of the table
/// that the run leaves holds readable aliases.
pub proof fn listing_after_import_is_readable(
    table: Table,
    aliases: Seq<Option<SeqAliasView>>,
    sequences: Seq<Option<FastadirEntryView>>,
    listing: Seq<Item>,
)
    requires
        all_storable(aliases),
        all_readable(sequences),
        aliases_readable(table),
        listed_in(run_import(table, aliases, sequences).1, listing),
    ensures
        alias_names(listing) is Ok,
{
    lemma_feed_aliases_counts(0, table, aliases);
    lemma_feed_aliases_keeps_readable(0, table, aliases);
    let with_aliases = feed_aliases(begun(), table, aliases).1;
    lemma_feed_sequences_keeps_readable(counted(0, aliases.len()), 0, with_aliases, sequences);
    lemma_listing_is_readable(run_import(table, aliases, sequences).1, listing);
}

/// A run over rows that can all be read and stored finishes, and its summary
/// counts every row.
pub proof fn finished_run_counts_rows(
    table: Table,
    aliases: Seq<Option<SeqAliasView>>,
    sequences: Seq<Option<FastadirEntryView>>,
)
    requires
        all_storable(aliases),
        all_readable(sequences),
    ensures
        run_import(table, aliases, sequences).0 == ImportStateView::Done(
            ImportSummary {
                aliases: counted(0, aliases.len()),
                sequences: counted(0, sequences.len()),
            },
        ),
{
    lemma_feed_aliases_counts(0, table, aliases);
    let with_aliases = feed_aliases(begun(), table, aliases).1;
    lemma_feed_sequences_counts(counted(0, aliases.len()), 0, with_aliases, sequences);
}

/// A row of the table of aliases that cannot be read, or cannot be stored, ends
/// the run with `SourceReadFailure`. What the rows before it wrote stays; no row
/// after it is written, and no sequence.
pub proof fn unreadable_alias_aborts(
    table: Table,
    aliases: Seq<Option<SeqAliasView>>,
    sequences: Seq<Option<FastadirEntryView>>,
    at: int,
)
    requires
        0 <= at < aliases.len(),
        all_storable(aliases.take(at)),
        !storable(aliases[at]),
    ensures
        run_import(table, aliases, sequences) == (
            ImportStateView::Failed(ImportErrorView::SourceReadFailure),
            feed_aliases(begun(), table, aliases.take(at)).1,
        ),
{
    lemma_feed_aliases_stops(0, table, aliases, at);
}

/// A row of the table of sequences that cannot be read ends the run with
/// `SourceReadFailure`. What the aliases and the rows before it wrote stays; no
/// row after it is written.
pub proof fn unreadable_sequence_aborts(
    table: Table,
    aliases: Seq<Option<SeqAliasView>>,
    sequences: Seq<Option<FastadirEntryView>>,
    at: int,
)
    requires
        all_storable(aliases),
        0 <= at < sequences.len(),
        all_readable(sequences.take(at)),
        sequences[at] is None,
    ensures
        run_import(table, aliases, sequences) == (
            ImportStateView::Failed(ImportErrorView::SourceReadFailure),
            feed_sequences(
                ImportStateView::ImportingSequenceInfo {
                    aliases: counted(0, aliases.len()),
                    written: 0,
                    writing: false,
                },
                feed_aliases(begun(), table, aliases).1,
                sequences.take(at),
            ).1,
        ),
{
    lemma_feed_aliases_counts(0, table, aliases);
    let with_aliases = feed_aliases(begun(), table, aliases).1;
    lemma_feed_sequences_stops(counted(0, aliases.len()), 0, with_aliases, sequences, at);
}

/// The rows that are written last decide what a lookup finds. A run imports
/// aliases that can all be stored, and sequences, against a store that does not
/// fail. Take an alias row that is the last for its namespace and alias, and a
/// sequence row for the sequence that it names that is the last for that
/// sequence. Then the lookup of that namespace and alias in the table that the run
/// leaves gives the metadata of that sequence row. `listing` is what the alias
/// index lists for the sequence; it has to hold readable aliases, which it does
/// where `listing_after_import_is_readable` applies.
pub proof fn last_written_rows_resolve(
    table: Table,
    aliases: Seq<SeqAliasView>,
    sequences: Seq<FastadirEntryView>,
    alias_at: int,
    sequence_at: int,
    listing: Seq<Item>,
)
    requires
        all_valid(aliases),
        0 <= alias_at < aliases.len(),
        last_of_its_alias(aliases, alias_at),
        0 <= sequence_at < sequences.len(),
        last_of_its_sequence(sequences, sequence_at),
        sequences[sequence_at].seq_id == aliases[alias_at].seq_id,
        alias_names(listing) is Ok,
    ensures
        run_import(table, read(aliases), read(sequences)).0 is Done,
        resolve_in(
            run_import(table, read(aliases), read(sequences)).1,
            listing,
            aliases[alias_at].namespace,
            aliases[alias_at].alias,
        ) == Ok::<_, LookupErrorView>(
            Some(metadata_of(sequences[sequence_at], alias_names(listing)->Ok_0)),
        ),
{
    let row = aliases[alias_at];
    let entry = sequences[sequence_at];
    let key = alias_key(row.namespace, row.alias);
    let info_key = sequence_key(entry.seq_id);
    tags_are_distinct();
    assert(row.valid());
    lemma_read_is_storable(aliases);
    assert(all_readable(read(sequences)));
    finished_run_counts_rows(table, read(aliases), read(sequences));
    lemma_feed_aliases_counts(0, table, read(aliases));
    lemma_feed_aliases_stores(0, table, aliases, alias_at);
    let with_aliases = feed_aliases(begun(), table, read(aliases)).1;
    let counted_aliases = counted(0, read(aliases).len());
    assert(no_sequence_under(read(sequences), key));
    lemma_feed_sequences_frame(counted_aliases, 0, with_aliases, read(sequences), key);
    lemma_feed_sequences_stores(counted_aliases, 0, with_aliases, sequences, sequence_at);
    let after = run_import(table, read(aliases), read(sequences)).1;
    assert(after.contains_key(key) && after[key] == row.item());
    assert(after.contains_key(info_key) && after[info_key] == entry.item());
    alias_round_trip(row);
    sequence_info_round_trip(entry);
    stored_alias_resolves(after, listing, row.namespace, row.alias);
}

/// The last row that has the namespace and alias of row `at`.
pub proof fn lemma_last_of_alias(rows: Seq<SeqAliasView>, at: int) -> (last: int)
    requires
        0 <= at < rows.len(),
    ensures
        at <= last < rows.len(),
        rows[last].key() == rows[at].key(),
        last_of_its_alias(rows, last),
    decreases rows.len() - at,
{
    if exists|k: int| at < k < rows.len() && (#[trigger] rows[k]).key() == rows[at].key() {
        let k = choose|k: int| at < k < rows.len() && (#[trigger] rows[k]).key() == rows[at].key();
        lemma_last_of_alias(rows, k)
    } else {
        at
    }
}

/// The last row that is about the sequence of row `at`.
pub proof fn lemma_last_of_sequence(rows: Seq<FastadirEntryView>, at: int) -> (last: int)
    requires
        0 <= at < rows.len(),
    ensures
        at <= last < rows.len(),
        rows[last].seq_id == rows[at].seq_id,
        last_of_its_sequence(rows, last),
    decreases rows.len() - at,
{
    if exists|k: int| at < k < rows.len() && (#[trigger] rows[k]).seq_id == rows[at].seq_id {
        let k = choose|k: int| at < k < rows.len() && (#[trigger] rows[k]).seq_id == rows[at].seq_id;
        lemma_last_of_sequence(rows, k)
    } else {
        at
    }
}

/// What was imported can be looked up. A run imports aliases that can all be
/// stored, and sequences, against a store that does not fail. Take any alias row
/// whose namespace and alias no later row gives to another sequence, and let some
/// sequence row be about the sequence that it names. Then the run finishes, and
/// the lookup of that namespace and alias in the table that it leaves finds
/// metadata whose canonical identifier is the `seq_id` of the alias row.
/// `listing` is what the alias index lists for the sequence; it has to hold
/// readable aliases, which it does where `listing_after_import_is_readable`
/// applies.
pub proof fn imported_alias_resolves(
    table: Table,
    aliases: Seq<SeqAliasView>,
    sequences: Seq<FastadirEntryView>,
    alias_at: int,
    listing: Seq<Item>,
)
    requires
        all_valid(aliases),
        0 <= alias_at < aliases.len(),
        not_superseded(aliases, alias_at),
        holds_sequence(sequences, aliases[alias_at].seq_id),
        alias_names(listing) is Ok,
    ensures
        run_import(table, read(aliases), read(sequences)).0 is Done,
        resolve_in(
            run_import(table, read(aliases), read(sequences)).1,
            listing,
            aliases[alias_at].namespace,
            aliases[alias_at].alias,
        ) matches Ok(Some(metadata)) && metadata.canonical_id == aliases[alias_at].seq_id,
{
    let seq_id = aliases[alias_at].seq_id;
    let last_alias = lemma_last_of_alias(aliases, alias_at);
    let some = choose|j: int| 0 <= j < sequences.len() && (#[trigger] sequences[j]).seq_id == seq_id;
    let last_sequence = lemma_last_of_sequence(sequences, some);
    assert(aliases[last_alias].seq_id == seq_id);
    last_written_rows_resolve(table, aliases, sequences, last_alias, last_sequence, listing);
}

} // verus!
