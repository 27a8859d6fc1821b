//! Records and their codec: how an alias and the facts about a sequence are written
//! as an item of the table, and how an item is read back.
//!
//! Reading never fills a gap: a field that the item lacks, or holds in another
//! type, is reported by name.

use crate::attributes::{AttributeMap, AttributeValue, AttributeValueView, Item};
use crate::decimal::{parse_inverts_render, parse_u64, parsed_u64, render_u64, rendered};
use crate::keys::{
    decode, decode_inverts_encode, decoded, join_alias, NaturalKey, NaturalKeyView, ObjectType,
};
use vstd::prelude::*;
use vstd::string::*;

verus! {

/// An alias of a sequence: a name in a namespace, and the sequence that it names.
#[derive(Debug, Clone, PartialEq, Eq)]
pub struct SeqAlias {
    /// The canonical identifier of the sequence.
    pub seq_id: String,
    pub namespace: String,
    pub alias: String,
    /// When the alias was added.
    pub added: String,
    /// Whether the alias still names `seq_id`.
    pub is_current: bool,
}

/// An alias as plain data.
pub struct SeqAliasView {
    pub seq_id: Seq<char>,
    pub namespace: Seq<char>,
    pub alias: Seq<char>,
    pub added: Seq<char>,
    pub is_current: bool,
}

impl View for SeqAlias {
    type V = SeqAliasView;

    open spec fn view(&self) -> SeqAliasView {
        SeqAliasView {
            seq_id: self.seq_id@,
            namespace: self.namespace@,
            alias: self.alias@,
            added: self.added@,
            is_current: self.is_current,
        }
    }
}

/// What is known of a sequence, under its canonical identifier.
#[derive(Debug, Clone, PartialEq, Eq)]
pub struct FastadirEntry {
    /// The canonical identifier of the sequence.
    pub seq_id: String,
    /// The length of the sequence, in residues.
    pub len: u64,
    /// The alphabet of the residues.
    pub alpha: String,
    /// When the sequence was added.
    pub added: String,
    /// Where the sequence data lies.
    pub relpath: String,
}

/// The facts about a sequence as plain data.
pub struct FastadirEntryView {
    pub seq_id: Seq<char>,
    pub len: u64,
    pub alpha: Seq<char>,
    pub added: Seq<char>,
    pub relpath: Seq<char>,
}

impl View for FastadirEntry {
    type V = FastadirEntryView;

    open spec fn view(&self) -> FastadirEntryView {
        FastadirEntryView {
            seq_id: self.seq_id@,
            len: self.len,
            alpha: self.alpha@,
            added: self.added@,
            relpath: self.relpath@,
        }
    }
}

/// A record of either kind.
#[derive(Debug, Clone, PartialEq, Eq)]
pub enum Record {
    SeqAlias(SeqAlias),
    SeqInfo(FastadirEntry),
}

/// A record as plain data.
pub enum RecordView {
    SeqAlias(SeqAliasView),
    SeqInfo(FastadirEntryView),
}

impl View for Record {
    type V = RecordView;

    open spec fn view(&self) -> RecordView {
        match self {
            Record::SeqAlias(alias) => RecordView::SeqAlias(alias@),
            Record::SeqInfo(entry) => RecordView::SeqInfo(entry@),
        }
    }
}

/// Why an item could not be read as a record. Each names the field.
#[derive(Debug, Clone, PartialEq, Eq)]
pub enum DynamodbConversionError {
    /// The item has no such attribute.
    MissingField(String),
    /// The item has the attribute, but not as a value that the field can take.
    TypeMismatch(String),
}

/// A codec error as plain data.
pub enum ConversionErrorView {
    MissingField(Seq<char>),
    TypeMismatch(Seq<char>),
}

impl View for DynamodbConversionError {
    type V = ConversionErrorView;

    open spec fn view(&self) -> ConversionErrorView {
        match self {
            DynamodbConversionError::MissingField(name) => ConversionErrorView::MissingField(
                name@,
            ),
            DynamodbConversionError::TypeMismatch(name) => ConversionErrorView::TypeMismatch(
                name@,
            ),
        }
    }
}

/// The attribute that holds the partition key.
pub open spec fn pk_name() -> Seq<char> {
    "type"@
}

/// The attribute that holds the sort key.
pub open spec fn sk_name() -> Seq<char> {
    "name"@
}

/// The string attribute `name` of `item`.
pub open spec fn string_field(item: Item, name: Seq<char>) -> Result<
    Seq<char>,
    ConversionErrorView,
> {
    if !item.contains_key(name) {
        Err(ConversionErrorView::MissingField(name))
    } else {
        match item[name] {
            AttributeValueView::S(text) => Ok(text),
            _ => Err(ConversionErrorView::TypeMismatch(name)),
        }
    }
}

/// The boolean attribute `name` of `item`.
pub open spec fn bool_field(item: Item, name: Seq<char>) -> Result<bool, ConversionErrorView> {
    if !item.contains_key(name) {
        Err(ConversionErrorView::MissingField(name))
    } else {
        match item[name] {
            AttributeValueView::Bool(b) => Ok(b),
            _ => Err(ConversionErrorView::TypeMismatch(name)),
        }
    }
}

/// The number attribute `name` of `item`, which has to be a number text that fits
/// 64 bits.
pub open spec fn number_field(item: Item, name: Seq<char>) -> Result<u64, ConversionErrorView> {
    if !item.contains_key(name) {
        Err(ConversionErrorView::MissingField(name))
    } else {
        match item[name] {
            AttributeValueView::N(text) => match parsed_u64(text) {
                Some(n) => Ok(n),
                None => Err(ConversionErrorView::TypeMismatch(name)),
            },
            _ => Err(ConversionErrorView::TypeMismatch(name)),
        }
    }
}

impl SeqAliasView {
    /// The natural identifier of the alias.
    pub open spec fn key(self) -> NaturalKeyView {
        NaturalKeyView::SeqAlias { namespace: self.namespace, alias: self.alias }
    }

    /// Whether the alias can be stored and read back: neither its namespace nor its
    /// name holds the separator.
    pub open spec fn valid(self) -> bool {
        self.key().valid()
    }

    /// The item that stores the alias.
    pub open spec fn item(self) -> Item {
        Map::<Seq<char>, AttributeValueView>::empty().insert(
            pk_name(),
            AttributeValueView::S(ObjectType::SeqAlias.db_value()),
        ).insert(sk_name(), AttributeValueView::S(self.key().sort_key())).insert(
            "seq_id"@,
            AttributeValueView::S(self.seq_id),
        ).insert("added"@, AttributeValueView::S(self.added)).insert(
            "current"@,
            AttributeValueView::Bool(self.is_current),
        )
    }

    /// The alias that an item stores. The fields are read in the order `seq_id`,
    /// `name`, `added`, `current`, and the first that fails is reported.
    pub open spec fn of_item(item: Item) -> Result<SeqAliasView, ConversionErrorView> {
        match string_field(item, "seq_id"@) {
            Err(e) => Err(e),
            Ok(seq_id) => match string_field(item, sk_name()) {
                Err(e) => Err(e),
                Ok(sort_key) => match decoded(ObjectType::SeqAlias, sort_key) {
                    Err(_) => Err(ConversionErrorView::TypeMismatch(sk_name())),
                    Ok(key) => match string_field(item, "added"@) {
                        Err(e) => Err(e),
                        Ok(added) => match bool_field(item, "current"@) {
                            Err(e) => Err(e),
                            Ok(is_current) => Ok(
                                SeqAliasView {
                                    seq_id,
                                    namespace: key->namespace,
                                    alias: key->alias,
                                    added,
                                    is_current,
                                },
                            ),
                        },
                    },
                },
            },
        }
    }
}

impl FastadirEntryView {
    /// The natural identifier of the sequence.
    pub open spec fn key(self) -> NaturalKeyView {
        NaturalKeyView::SeqInfo { seq_id: self.seq_id }
    }

    /// The item that stores the facts about the sequence.
    pub open spec fn item(self) -> Item {
        Map::<Seq<char>, AttributeValueView>::empty().insert(
            pk_name(),
            AttributeValueView::S(ObjectType::SeqInfo.db_value()),
        ).insert(sk_name(), AttributeValueView::S(self.seq_id)).insert(
            "len"@,
            AttributeValueView::N(rendered(self.len as nat)),
        ).insert("alpha"@, AttributeValueView::S(self.alpha)).insert(
            "added"@,
            AttributeValueView::S(self.added),
        ).insert("uri"@, AttributeValueView::S(self.relpath))
    }

    /// The facts that an item stores. The fields are read in the order `name`,
    /// `len`, `alpha`, `added`, `uri`, and the first that fails is reported.
    pub open spec fn of_item(item: Item) -> Result<FastadirEntryView, ConversionErrorView> {
        match string_field(item, sk_name()) {
            Err(e) => Err(e),
            Ok(seq_id) => match number_field(item, "len"@) {
                Err(e) => Err(e),
                Ok(len) => match string_field(item, "alpha"@) {
                    Err(e) => Err(e),
                    Ok(alpha) => match string_field(item, "added"@) {
                        Err(e) => Err(e),
                        Ok(added) => match string_field(item, "uri"@) {
                            Err(e) => Err(e),
                            Ok(relpath) => Ok(
                                FastadirEntryView { seq_id, len, alpha, added, relpath },
                            ),
                        },
                    },
                },
            },
        }
    }
}

impl RecordView {
    pub open spec fn kind(self) -> ObjectType {
        match self {
            RecordView::SeqAlias(_) => ObjectType::SeqAlias,
            RecordView::SeqInfo(_) => ObjectType::SeqInfo,
        }
    }

    /// Whether the record can be stored and read back.
    pub open spec fn valid(self) -> bool {
        match self {
            RecordView::SeqAlias(alias) => alias.valid(),
            RecordView::SeqInfo(_) => true,
        }
    }

    /// The item that stores the record.
    pub open spec fn item(self) -> Item {
        match self {
            RecordView::SeqAlias(alias) => alias.item(),
            RecordView::SeqInfo(entry) => entry.item(),
        }
    }

    /// The record of the given kind that an item stores.
    pub open spec fn of_item(kind: ObjectType, item: Item) -> Result<
        RecordView,
        ConversionErrorView,
    > {
        match kind {
            ObjectType::SeqAlias => match SeqAliasView::of_item(item) {
                Ok(alias) => Ok(RecordView::SeqAlias(alias)),
                Err(e) => Err(e),
            },
            ObjectType::SeqInfo => match FastadirEntryView::of_item(item) {
                Ok(entry) => Ok(RecordView::SeqInfo(entry)),
                Err(e) => Err(e),
            },
        }
    }
}

/// Reads a string attribute.
pub fn get_string(attributes: &AttributeMap, name: &str) -> (field: Result<
    String,
    DynamodbConversionError,
>)
    ensures
        match field {
            Ok(text) => string_field(attributes@, name@) == Ok::<_, ConversionErrorView>(text@),
            Err(e) => string_field(attributes@, name@) == Err::<Seq<char>, _>(e@),
        },
{
    match attributes.get(name) {
        None => Err(DynamodbConversionError::MissingField(name.to_string())),
        Some(AttributeValue::S(text)) => Ok(text.clone()),
        Some(_) => Err(DynamodbConversionError::TypeMismatch(name.to_string())),
    }
}

/// Reads a boolean attribute.
pub fn get_bool(attributes: &AttributeMap, name: &str) -> (field: Result<
    bool,
    DynamodbConversionError,
>)
    ensures
        match field {
            Ok(b) => bool_field(attributes@, name@) == Ok::<_, ConversionErrorView>(b),
            Err(e) => bool_field(attributes@, name@) == Err::<bool, _>(e@),
        },
{
    match attributes.get(name) {
        None => Err(DynamodbConversionError::MissingField(name.to_string())),
        Some(AttributeValue::Bool(b)) => Ok(*b),
        Some(_) => Err(DynamodbConversionError::TypeMismatch(name.to_string())),
    }
}

/// Reads a number attribute.
pub fn get_number(attributes: &AttributeMap, name: &str) -> (field: Result<
    u64,
    DynamodbConversionError,
>)
    ensures
        match field {
            Ok(n) => number_field(attributes@, name@) == Ok::<_, ConversionErrorView>(n),
            Err(e) => number_field(attributes@, name@) == Err::<u64, _>(e@),
        },
{
    match attributes.get(name) {
        None => Err(DynamodbConversionError::MissingField(name.to_string())),
        Some(AttributeValue::N(text)) => match parse_u64(text.as_str()) {
            Some(n) => Ok(n),
            None => Err(DynamodbConversionError::TypeMismatch(name.to_string())),
        },
        Some(_) => Err(DynamodbConversionError::TypeMismatch(name.to_string())),
    }
}

impl SeqAlias {
    /// The natural identifier of the alias.
    pub fn key(&self) -> (key: NaturalKey)
        ensures
            key@ == self@.key(),
    {
        NaturalKey::SeqAlias { namespace: self.namespace.clone(), alias: self.alias.clone() }
    }

    /// Writes the alias as an item. The item holds its own partition key and sort
    /// key, as every stored item does.
    pub fn to_attributes(&self) -> (attributes: AttributeMap)
        ensures
            attributes@ == self@.item(),
    {
        let mut attributes = AttributeMap::new();
        attributes.insert(
            "type".to_string(),
            AttributeValue::S(ObjectType::SeqAlias.to_db_value()),
        );
        attributes.insert(
            "name".to_string(),
            AttributeValue::S(join_alias(self.namespace.as_str(), self.alias.as_str())),
        );
        attributes.insert("seq_id".to_string(), AttributeValue::S(self.seq_id.clone()));
        attributes.insert("added".to_string(), AttributeValue::S(self.added.clone()));
        attributes.insert("current".to_string(), AttributeValue::Bool(self.is_current));
        attributes
    }

    /// Reads an alias from an item.
    pub fn from_attributes(attributes: &AttributeMap) -> (alias: Result<
        SeqAlias,
        DynamodbConversionError,
    >)
        ensures
            match alias {
                Ok(a) => SeqAliasView::of_item(attributes@) == Ok::<_, ConversionErrorView>(a@),
                Err(e) => SeqAliasView::of_item(attributes@) == Err::<SeqAliasView, _>(e@),
            },
            !attributes@.contains_key("seq_id"@) ==> alias is Err
                && alias->Err_0@ == ConversionErrorView::MissingField("seq_id"@),
    {
        let seq_id = match get_string(attributes, "seq_id") {
            Ok(text) => text,
            Err(e) => {
                return Err(e);
            },
        };
        let sort_key = match get_string(attributes, "name") {
            Ok(text) => text,
            Err(e) => {
                return Err(e);
            },
        };
        let (namespace, alias) = match decode(ObjectType::SeqAlias, sort_key.as_str()) {
            Ok(NaturalKey::SeqAlias { namespace, alias }) => (namespace, alias),
            _ => {
                return Err(DynamodbConversionError::TypeMismatch("name".to_string()));
            },
        };
        let added = match get_string(attributes, "added") {
            Ok(text) => text,
            Err(e) => {
                return Err(e);
            },
        };
        let is_current = match get_bool(attributes, "current") {
            Ok(b) => b,
            Err(e) => {
                return Err(e);
            },
        };
        Ok(SeqAlias { seq_id, namespace, alias, added, is_current })
    }
}

impl FastadirEntry {
    /// The natural identifier of the sequence.
    pub fn key(&self) -> (key: NaturalKey)
        ensures
            key@ == self@.key(),
    {
        NaturalKey::SeqInfo { seq_id: self.seq_id.clone() }
    }

    /// Writes the facts about a sequence as an item. The item holds its own
    /// partition key and sort key, as every stored item does.
    pub fn to_attributes(&self) -> (attributes: AttributeMap)
        ensures
            attributes@ == self@.item(),
    {
        let mut attributes = AttributeMap::new();
        attributes.insert(
            "type".to_string(),
            AttributeValue::S(ObjectType::SeqInfo.to_db_value()),
        );
        attributes.insert("name".to_string(), AttributeValue::S(self.seq_id.clone()));
        attributes.insert("len".to_string(), AttributeValue::N(render_u64(self.len)));
        attributes.insert("alpha".to_string(), AttributeValue::S(self.alpha.clone()));
        attributes.insert("added".to_string(), AttributeValue::S(self.added.clone()));
        attributes.insert("uri".to_string(), AttributeValue::S(self.relpath.clone()));
        attributes
    }

    /// Reads the facts about a sequence from an item.
    pub fn from_attributes(attributes: &AttributeMap) -> (entry: Result<
        FastadirEntry,
        DynamodbConversionError,
    >)
        ensures
            match entry {
                Ok(r) => FastadirEntryView::of_item(attributes@) == Ok::<_, ConversionErrorView>(
                    r@,
                ),
                Err(e) => FastadirEntryView::of_item(attributes@) == Err::<FastadirEntryView, _>(
                    e@,
                ),
            },
    {
        let seq_id = match get_string(attributes, "name") {
            Ok(text) => text,
            Err(e) => {
                return Err(e);
            },
        };
        let len = match get_number(attributes, "len") {
            Ok(n) => n,
            Err(e) => {
                return Err(e);
            },
        };
        let alpha = match get_string(attributes, "alpha") {
            Ok(text) => text,
            Err(e) => {
                return Err(e);
            },
        };
        let added = match get_string(attributes, "added") {
            Ok(text) => text,
            Err(e) => {
                return Err(e);
            },
        };
        let relpath = match get_string(attributes, "uri") {
            Ok(text) => text,
            Err(e) => {
                return Err(e);
            },
        };
        Ok(FastadirEntry { seq_id, len, alpha, added, relpath })
    }
}

impl Record {
    pub fn kind(&self) -> (kind: ObjectType)
        ensures
            kind == self@.kind(),
    {
        match self {
            Record::SeqAlias(_) => ObjectType::SeqAlias,
            Record::SeqInfo(_) => ObjectType::SeqInfo,
        }
    }

    /// Writes a record as an item.
    pub fn to_attributes(&self) -> (attributes: AttributeMap)
        ensures
            attributes@ == self@.item(),
    {
        match self {
            Record::SeqAlias(alias) => alias.to_attributes(),
            Record::SeqInfo(entry) => entry.to_attributes(),
        }
    }

    /// Reads a record of the given kind from an item. The kind is the caller's to
    /// say; it is never guessed from the fields that the item has.
    pub fn from_attributes(kind: ObjectType, attributes: &AttributeMap) -> (record: Result<
        Record,
        DynamodbConversionError,
    >)
        ensures
            match record {
                Ok(r) => RecordView::of_item(kind, attributes@) == Ok::<_, ConversionErrorView>(
                    r@,
                ),
                Err(e) => RecordView::of_item(kind, attributes@) == Err::<RecordView, _>(e@),
            },
    {
        match kind {
            ObjectType::SeqAlias => match SeqAlias::from_attributes(attributes) {
                Ok(alias) => Ok(Record::SeqAlias(alias)),
                Err(e) => Err(e),
            },
            ObjectType::SeqInfo => match FastadirEntry::from_attributes(attributes) {
                Ok(entry) => Ok(Record::SeqInfo(entry)),
                Err(e) => Err(e),
            },
        }
    }
}

/// The attribute names of the two record kinds are all different.
pub proof fn attribute_names_differ()
    ensures
        pk_name() != sk_name(),
        pk_name() != "seq_id"@,
        pk_name() != "added"@,
        pk_name() != "current"@,
        pk_name() != "len"@,
        pk_name() != "alpha"@,
        pk_name() != "uri"@,
        sk_name() != "seq_id"@,
        sk_name() != "added"@,
        sk_name() != "current"@,
        sk_name() != "len"@,
        sk_name() != "alpha"@,
        sk_name() != "uri"@,
        "seq_id"@ != "added"@,
        "seq_id"@ != "current"@,
        "added"@ != "current"@,
        "len"@ != "alpha"@,
        "len"@ != "added"@,
        "len"@ != "uri"@,
        "alpha"@ != "added"@,
        "alpha"@ != "uri"@,
        "added"@ != "uri"@,
{
    reveal_strlit("type");
    reveal_strlit("name");
    reveal_strlit("seq_id");
    reveal_strlit("added");
    reveal_strlit("current");
    reveal_strlit("len");
    reveal_strlit("alpha");
    reveal_strlit("uri");
    assert("type"@[0] != "name"@[0]);
    assert("seq_id"@.len() == 6 && "current"@.len() == 7 && "added"@.len() == 5);
    assert("alpha"@[1] != "added"@[1]);
    assert("len"@[0] != "uri"@[0]);
}

/// Reading undoes writing, for an alias: the item of a valid alias is read as that
/// alias.
pub proof fn alias_round_trip(alias: SeqAliasView)
    requires
        alias.valid(),
    ensures
        SeqAliasView::of_item(alias.item()) == Ok::<_, ConversionErrorView>(alias),
{
    attribute_names_differ();
    decode_inverts_encode(alias.key());
}

/// Reading undoes writing, for the facts about a sequence.
pub proof fn sequence_info_round_trip(entry: FastadirEntryView)
    ensures
        FastadirEntryView::of_item(entry.item()) == Ok::<_, ConversionErrorView>(entry),
{
    attribute_names_differ();
    parse_inverts_render(entry.len as nat);
}

/// Reading undoes writing: the item of a valid record, read as a record of its
/// kind, is that record.
pub proof fn record_round_trip(record: RecordView)
    requires
        record.valid(),
    ensures
        RecordView::of_item(record.kind(), record.item()) == Ok::<_, ConversionErrorView>(
            record,
        ),
{
    match record {
        RecordView::SeqAlias(alias) => alias_round_trip(alias),
        RecordView::SeqInfo(entry) => sequence_info_round_trip(entry),
    }
}

/// An item without the attribute `seq_id` is never read as an alias: the reader
/// reports that field as missing, whatever else the item holds or lacks.
pub proof fn alias_without_seq_id_is_rejected(item: Item)
    requires
        !item.contains_key("seq_id"@),
    ensures
        SeqAliasView::of_item(item) == Err::<SeqAliasView, _>(
            ConversionErrorView::MissingField("seq_id"@),
        ),
{
}

} // verus!
