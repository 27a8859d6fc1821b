use seqrepo::attributes::{Attribute, AttributeMap, AttributeValue};
use seqrepo::keys::{NaturalKey, ObjectType};
use seqrepo::records::{
    get_bool, get_number, get_string, DynamodbConversionError, FastadirEntry, Record, SeqAlias,
};

fn chr1_alias() -> SeqAlias {
    SeqAlias {
        seq_id: "SQ.abc".to_string(),
        namespace: "refseq".to_string(),
        alias: "NC_000001.11".to_string(),
        added: "2024-01-01".to_string(),
        is_current: true,
    }
}

fn chr1_info() -> FastadirEntry {
    FastadirEntry {
        seq_id: "SQ.abc".to_string(),
        len: 248956422,
        alpha: "na".to_string(),
        added: "2024-01-01".to_string(),
        relpath: "chr1.fa".to_string(),
    }
}

fn text(value: &str) -> AttributeValue {
    AttributeValue::S(value.to_string())
}

fn alias_item_without(name: &str) -> AttributeMap {
    let mut item = AttributeMap::new();
    for attribute in chr1_alias().to_attributes().entries() {
        if attribute.name != name {
            item.insert(attribute.name.clone(), attribute.value.clone());
        }
    }
    item
}

fn info_item_without(name: &str) -> AttributeMap {
    let mut item = AttributeMap::new();
    for attribute in chr1_info().to_attributes().entries() {
        if attribute.name != name {
            item.insert(attribute.name.clone(), attribute.value.clone());
        }
    }
    item
}

#[test]
fn attribute_map_starts_empty() {
    let item = AttributeMap::new();
    assert_eq!(item.len(), 0);
    assert_eq!(item.get("seq_id"), None);
    assert!(item.entries().is_empty());
}

#[test]
fn attribute_map_insert_then_get() {
    let mut item = AttributeMap::new();
    item.insert("seq_id".to_string(), text("SQ.abc"));
    item.insert("current".to_string(), AttributeValue::Bool(false));
    assert_eq!(item.len(), 2);
    assert_eq!(item.get("seq_id"), Some(&text("SQ.abc")));
    assert_eq!(item.get("current"), Some(&AttributeValue::Bool(false)));
    assert_eq!(item.get("added"), None);
    assert_eq!(item.get("seq_i"), None);
}

#[test]
fn attribute_map_insert_replaces() {
    let mut item = AttributeMap::new();
    item.insert("a".to_string(), text("1"));
    item.insert("b".to_string(), text("2"));
    item.insert("a".to_string(), text("3"));
    assert_eq!(item.len(), 2);
    assert_eq!(item.get("a"), Some(&text("3")));
    assert_eq!(item.get("b"), Some(&text("2")));
    assert_eq!(
        item.entries(),
        &vec![
            Attribute { name: "a".to_string(), value: text("3") },
            Attribute { name: "b".to_string(), value: text("2") },
        ]
    );
}

#[test]
fn attribute_map_copies_hold_the_same() {
    let item = chr1_alias().to_attributes();
    assert_eq!(item.duplicate().entries(), item.entries());
    assert_eq!(item.clone().entries(), item.entries());
    assert_eq!(AttributeValue::N("5".to_string()).duplicate(), AttributeValue::N("5".to_string()));
    assert_eq!(AttributeValue::Other.duplicate(), AttributeValue::Other);
}

#[test]
fn alias_item_has_the_stored_attributes() {
    let item = chr1_alias().to_attributes();
    assert_eq!(item.len(), 5);
    assert_eq!(item.get("type"), Some(&text("seqalias")));
    assert_eq!(item.get("name"), Some(&text("refseq:NC_000001.11")));
    assert_eq!(item.get("seq_id"), Some(&text("SQ.abc")));
    assert_eq!(item.get("added"), Some(&text("2024-01-01")));
    assert_eq!(item.get("current"), Some(&AttributeValue::Bool(true)));
}

#[test]
fn sequence_item_has_the_stored_attributes() {
    let item = chr1_info().to_attributes();
    assert_eq!(item.len(), 6);
    assert_eq!(item.get("type"), Some(&text("seqinfo")));
    assert_eq!(item.get("name"), Some(&text("SQ.abc")));
    assert_eq!(item.get("len"), Some(&AttributeValue::N("248956422".to_string())));
    assert_eq!(item.get("alpha"), Some(&text("na")));
    assert_eq!(item.get("added"), Some(&text("2024-01-01")));
    assert_eq!(item.get("uri"), Some(&text("chr1.fa")));
}

#[test]
fn alias_round_trips() {
    let alias = chr1_alias();
    assert_eq!(SeqAlias::from_attributes(&alias.to_attributes()), Ok(alias));
    let superseded = SeqAlias { is_current: false, alias: "".to_string(), ..chr1_alias() };
    assert_eq!(SeqAlias::from_attributes(&superseded.to_attributes()), Ok(superseded));
}

#[test]
fn sequence_info_round_trips() {
    let info = chr1_info();
    assert_eq!(FastadirEntry::from_attributes(&info.to_attributes()), Ok(info));
    let longest = FastadirEntry { len: u64::MAX, ..chr1_info() };
    assert_eq!(FastadirEntry::from_attributes(&longest.to_attributes()), Ok(longest));
    let empty = FastadirEntry { len: 0, seq_id: "a:b".to_string(), ..chr1_info() };
    assert_eq!(FastadirEntry::from_attributes(&empty.to_attributes()), Ok(empty));
}

#[test]
fn record_round_trips_by_kind() {
    for record in [Record::SeqAlias(chr1_alias()), Record::SeqInfo(chr1_info())] {
        let item = record.to_attributes();
        assert_eq!(Record::from_attributes(record.kind(), &item), Ok(record));
    }
}

#[test]
fn record_kind_is_the_callers_to_say() {
    let item = Record::SeqInfo(chr1_info()).to_attributes();
    assert_eq!(
        Record::from_attributes(ObjectType::SeqAlias, &item),
        Err(DynamodbConversionError::MissingField("seq_id".to_string()))
    );
    let item = Record::SeqAlias(chr1_alias()).to_attributes();
    assert_eq!(
        Record::from_attributes(ObjectType::SeqInfo, &item),
        Err(DynamodbConversionError::MissingField("len".to_string()))
    );
}

#[test]
fn alias_with_separator_does_not_round_trip() {
    let odd = SeqAlias { namespace: "a:b".to_string(), alias: "c".to_string(), ..chr1_alias() };
    assert_eq!(
        SeqAlias::from_attributes(&odd.to_attributes()),
        Err(DynamodbConversionError::TypeMismatch("name".to_string()))
    );
}

#[test]
fn alias_without_seq_id_is_missing_field() {
    assert_eq!(
        SeqAlias::from_attributes(&alias_item_without("seq_id")),
        Err(DynamodbConversionError::MissingField("seq_id".to_string()))
    );
    assert_eq!(
        SeqAlias::from_attributes(&AttributeMap::new()),
        Err(DynamodbConversionError::MissingField("seq_id".to_string()))
    );
    let mut only_name = AttributeMap::new();
    only_name.insert("name".to_string(), AttributeValue::Bool(true));
    assert_eq!(
        SeqAlias::from_attributes(&only_name),
        Err(DynamodbConversionError::MissingField("seq_id".to_string()))
    );
}

#[test]
fn alias_reports_each_missing_field() {
    for name in ["name", "added", "current"] {
        assert_eq!(
            SeqAlias::from_attributes(&alias_item_without(name)),
            Err(DynamodbConversionError::MissingField(name.to_string()))
        );
    }
    assert_eq!(SeqAlias::from_attributes(&alias_item_without("type")), Ok(chr1_alias()));
}

#[test]
fn alias_reports_each_type_mismatch() {
    let wrong = [
        ("seq_id", AttributeValue::N("1".to_string())),
        ("name", AttributeValue::Bool(true)),
        ("name", text("no-separator")),
        ("name", text("a:b:c")),
        ("added", AttributeValue::Other),
        ("current", text("true")),
    ];
    for (name, value) in wrong {
        let mut item = chr1_alias().to_attributes();
        item.insert(name.to_string(), value);
        assert_eq!(
            SeqAlias::from_attributes(&item),
            Err(DynamodbConversionError::TypeMismatch(name.to_string()))
        );
    }
}

#[test]
fn sequence_info_reports_each_missing_field() {
    for name in ["name", "len", "alpha", "added", "uri"] {
        assert_eq!(
            FastadirEntry::from_attributes(&info_item_without(name)),
            Err(DynamodbConversionError::MissingField(name.to_string()))
        );
    }
}

#[test]
fn sequence_info_reports_each_type_mismatch() {
    let wrong = [
        ("name", AttributeValue::Bool(true)),
        ("len", text("248956422")),
        ("len", AttributeValue::N("12.5".to_string())),
        ("len", AttributeValue::N("-3".to_string())),
        ("len", AttributeValue::N("".to_string())),
        ("len", AttributeValue::N("18446744073709551616".to_string())),
        ("alpha", AttributeValue::N("1".to_string())),
        ("added", AttributeValue::Bool(false)),
        ("uri", AttributeValue::Other),
    ];
    for (name, value) in wrong {
        let mut item = chr1_info().to_attributes();
        item.insert(name.to_string(), value);
        assert_eq!(
            FastadirEntry::from_attributes(&item),
            Err(DynamodbConversionError::TypeMismatch(name.to_string()))
        );
    }
}

#[test]
fn first_failing_field_is_reported() {
    let mut item = alias_item_without("added");
    item.insert("name".to_string(), AttributeValue::Bool(true));
    assert_eq!(
        SeqAlias::from_attributes(&item),
        Err(DynamodbConversionError::TypeMismatch("name".to_string()))
    );
}

#[test]
fn field_readers() {
    let item = chr1_info().to_attributes();
    assert_eq!(get_string(&item, "alpha"), Ok("na".to_string()));
    assert_eq!(get_number(&item, "len"), Ok(248956422));
    assert_eq!(
        get_string(&item, "len"),
        Err(DynamodbConversionError::TypeMismatch("len".to_string()))
    );
    assert_eq!(
        get_bool(&item, "current"),
        Err(DynamodbConversionError::MissingField("current".to_string()))
    );
    assert_eq!(get_bool(&chr1_alias().to_attributes(), "current"), Ok(true));
}

#[test]
fn record_keys() {
    assert_eq!(
        chr1_alias().key(),
        NaturalKey::SeqAlias { namespace: "refseq".to_string(), alias: "NC_000001.11".to_string() }
    );
    assert_eq!(chr1_info().key(), NaturalKey::SeqInfo { seq_id: "SQ.abc".to_string() });
}
