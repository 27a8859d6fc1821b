//! Key encoding: how a logical record is addressed in the table.
//!
//! Every record lives under a partition key, which is the tag of its kind, and a
//! sort key, which is its natural identifier written as one string. An alias is
//! identified by its namespace and its name, joined by one separator that neither
//! part may hold; a sequence is identified by its canonical identifier as it is.

use crate::text::find_char;
use vstd::prelude::*;
use vstd::string::*;

verus! {

/// The character that joins a namespace and an alias in a sort key.
pub const SEPARATOR: char = ':';

/// The kind of a stored record. Its tag is the record's partition key.
#[derive(Debug, Clone, Copy, PartialEq, Eq, Structural)]
pub enum ObjectType {
    SeqAlias,
    SeqInfo,
}

/// What is wrong with an input that the caller has to correct.
#[derive(Debug, Clone, Copy, PartialEq, Eq, Structural)]
pub enum ErrorKind {
    /// A namespace or an alias holds the separator, or a sort key is not of the
    /// form that its kind asks for.
    InvalidKey,
}

/// An input was malformed. Asking again with the same input fails again.
#[derive(Debug, Clone, Copy, PartialEq, Eq, Structural)]
pub struct InputError {
    pub kind: ErrorKind,
}

/// The natural identifier of a record, by kind.
#[derive(Debug, Clone, PartialEq, Eq)]
pub enum NaturalKey {
    SeqAlias { namespace: String, alias: String },
    SeqInfo { seq_id: String },
}

/// A natural identifier as plain character sequences.
pub enum NaturalKeyView {
    SeqAlias { namespace: Seq<char>, alias: Seq<char> },
    SeqInfo { seq_id: Seq<char> },
}

impl View for NaturalKey {
    type V = NaturalKeyView;

    open spec fn view(&self) -> NaturalKeyView {
        match self {
            NaturalKey::SeqAlias { namespace, alias } => NaturalKeyView::SeqAlias {
                namespace: namespace@,
                alias: alias@,
            },
            NaturalKey::SeqInfo { seq_id } => NaturalKeyView::SeqInfo { seq_id: seq_id@ },
        }
    }
}

/// The address of one item: partition key and sort key.
#[derive(Debug, Clone, PartialEq, Eq)]
pub struct StoreKey {
    pub partition_key: String,
    pub sort_key: String,
}

impl View for StoreKey {
    type V = (Seq<char>, Seq<char>);

    open spec fn view(&self) -> (Seq<char>, Seq<char>) {
        (self.partition_key@, self.sort_key@)
    }
}

/// The error of every rejected key.
pub open spec fn invalid_key() -> InputError {
    InputError { kind: ErrorKind::InvalidKey }
}

/// A namespace or an alias may hold anything but the separator.
pub open spec fn free_of_separator(part: Seq<char>) -> bool {
    !part.contains(SEPARATOR)
}

/// The sort key of an alias: namespace, separator, alias.
pub open spec fn alias_sort_key(namespace: Seq<char>, alias: Seq<char>) -> Seq<char> {
    namespace + seq![SEPARATOR] + alias
}

impl ObjectType {
    /// The partition-key tag of this kind, as stored.
    pub open spec fn db_value(self) -> Seq<char> {
        match self {
            ObjectType::SeqAlias => "seqalias"@,
            ObjectType::SeqInfo => "seqinfo"@,
        }
    }

    /// The kind that a partition-key tag names, if it names one.
    pub open spec fn of_db_value(tag: Seq<char>) -> Option<ObjectType> {
        if tag == "seqalias"@ {
            Some(ObjectType::SeqAlias)
        } else if tag == "seqinfo"@ {
            Some(ObjectType::SeqInfo)
        } else {
            None
        }
    }

    pub fn to_db_value(&self) -> (tag: String)
        ensures
            tag@ == self.db_value(),
    {
        match self {
            ObjectType::SeqAlias => "seqalias".to_string(),
            ObjectType::SeqInfo => "seqinfo".to_string(),
        }
    }

    /// Reads a partition-key tag back. Only the two tags that `to_db_value` writes
    /// name a kind.
    pub fn from_db_value(tag: &str) -> (kind: Option<ObjectType>)
        ensures
            kind == ObjectType::of_db_value(tag@),
    {
        if crate::text::str_eq(tag, "seqalias") {
            Some(ObjectType::SeqAlias)
        } else if crate::text::str_eq(tag, "seqinfo") {
            Some(ObjectType::SeqInfo)
        } else {
            None
        }
    }
}

impl NaturalKeyView {
    pub open spec fn kind(self) -> ObjectType {
        match self {
            NaturalKeyView::SeqAlias { .. } => ObjectType::SeqAlias,
            NaturalKeyView::SeqInfo { .. } => ObjectType::SeqInfo,
        }
    }

    /// Whether the identifier can be written as a sort key and read back.
    pub open spec fn valid(self) -> bool {
        match self {
            NaturalKeyView::SeqAlias { namespace, alias } => free_of_separator(namespace)
                && free_of_separator(alias),
            NaturalKeyView::SeqInfo { .. } => true,
        }
    }

    pub open spec fn sort_key(self) -> Seq<char> {
        match self {
            NaturalKeyView::SeqAlias { namespace, alias } => alias_sort_key(namespace, alias),
            NaturalKeyView::SeqInfo { seq_id } => seq_id,
        }
    }

    /// Where a record with this identifier is stored, or why it cannot be.
    pub open spec fn encoded(self) -> Result<(Seq<char>, Seq<char>), InputError> {
        if self.valid() {
            Ok((self.kind().db_value(), self.sort_key()))
        } else {
            Err(invalid_key())
        }
    }
}

/// The identifier that a sort key of the given kind stands for. An alias sort key
/// holds the separator exactly once; what is before it is the namespace, what is
/// after it the alias.
pub open spec fn decoded(kind: ObjectType, sort_key: Seq<char>) -> Result<
    NaturalKeyView,
    InputError,
> {
    match kind {
        ObjectType::SeqInfo => Ok(NaturalKeyView::SeqInfo { seq_id: sort_key }),
        ObjectType::SeqAlias => match sort_key.index_of_first(SEPARATOR) {
            Some(at) => if free_of_separator(sort_key.skip(at + 1)) {
                Ok(
                    NaturalKeyView::SeqAlias {
                        namespace: sort_key.take(at),
                        alias: sort_key.skip(at + 1),
                    },
                )
            } else {
                Err(invalid_key())
            },
            None => Err(invalid_key()),
        },
    }
}

impl NaturalKey {
    pub fn kind(&self) -> (kind: ObjectType)
        ensures
            kind == self@.kind(),
    {
        match self {
            NaturalKey::SeqAlias { .. } => ObjectType::SeqAlias,
            NaturalKey::SeqInfo { .. } => ObjectType::SeqInfo,
        }
    }
}

/// Joins a namespace and an alias into the sort key of the alias, whatever they hold.
pub fn join_alias(namespace: &str, alias: &str) -> (sort_key: String)
    ensures
        sort_key@ == alias_sort_key(namespace@, alias@),
{
    proof {
        reveal_strlit(":");
    }
    let mut sort_key = namespace.to_string();
    sort_key.append(":");
    sort_key.append(alias);
    assert(":"@ =~= seq![SEPARATOR]);
    sort_key
}

/// Whether `part` may stand as a namespace or as an alias.
pub fn is_free_of_separator(part: &str) -> (free: bool)
    ensures
        free == free_of_separator(part@),
{
    find_char(part, SEPARATOR).is_none()
}

/// Maps a natural identifier to the partition key and sort key of its record.
pub fn encode(key: &NaturalKey) -> (address: Result<StoreKey, InputError>)
    ensures
        match address {
            Ok(k) => key@.encoded() == Ok::<_, InputError>(k@),
            Err(e) => key@.encoded() == Err::<(Seq<char>, Seq<char>), _>(e),
        },
{
    match key {
        NaturalKey::SeqAlias { namespace, alias } => {
            if is_free_of_separator(namespace.as_str()) && is_free_of_separator(alias.as_str()) {
                Ok(
                    StoreKey {
                        partition_key: ObjectType::SeqAlias.to_db_value(),
                        sort_key: join_alias(namespace.as_str(), alias.as_str()),
                    },
                )
            } else {
                Err(InputError { kind: ErrorKind::InvalidKey })
            }
        },
        NaturalKey::SeqInfo { seq_id } => Ok(
            StoreKey { partition_key: ObjectType::SeqInfo.to_db_value(), sort_key: seq_id.clone() },
        ),
    }
}

/// Reads the natural identifier back from the sort key of a record of the given kind.
pub fn decode(kind: ObjectType, sort_key: &str) -> (key: Result<NaturalKey, InputError>)
    ensures
        match key {
            Ok(k) => decoded(kind, sort_key@) == Ok::<_, InputError>(k@),
            Err(e) => decoded(kind, sort_key@) == Err::<NaturalKeyView, _>(e),
        },
{
    match kind {
        ObjectType::SeqInfo => Ok(NaturalKey::SeqInfo { seq_id: sort_key.to_string() }),
        ObjectType::SeqAlias => {
            proof {
                sort_key@.index_of_first_ensures(SEPARATOR);
            }
            match find_char(sort_key, SEPARATOR) {
                None => Err(InputError { kind: ErrorKind::InvalidKey }),
                Some(at) => {
                    let len = sort_key.unicode_len();
                    let namespace = sort_key.substring_char(0, at);
                    let alias = sort_key.substring_char(at + 1, len);
                    assert(sort_key@.index_of_first(SEPARATOR) == Some(at as int));
                    if is_free_of_separator(alias) {
                        Ok(
                            NaturalKey::SeqAlias {
                                namespace: namespace.to_string(),
                                alias: alias.to_string(),
                            },
                        )
                    } else {
                        Err(InputError { kind: ErrorKind::InvalidKey })
                    }
                },
            }
        },
    }
}

/// The two kinds have different tags, and each tag is read back as its kind.
pub proof fn tags_are_distinct()
    ensures
        ObjectType::SeqAlias.db_value() != ObjectType::SeqInfo.db_value(),
        forall|kind: ObjectType| ObjectType::of_db_value(#[trigger] kind.db_value()) == Some(kind),
{
    reveal_strlit("seqalias");
    reveal_strlit("seqinfo");
    assert("seqalias"@.len() != "seqinfo"@.len());
}

/// Decoding undoes encoding: the sort key of a valid identifier is read back as
/// that identifier.
pub proof fn decode_inverts_encode(key: NaturalKeyView)
    requires
        key.valid(),
    ensures
        decoded(key.kind(), key.sort_key()) == Ok::<_, InputError>(key),
{
    match key {
        NaturalKeyView::SeqInfo { .. } => {},
        NaturalKeyView::SeqAlias { namespace, alias } => {
            let sk = alias_sort_key(namespace, alias);
            let at = namespace.len() as int;
            sk.index_of_first_ensures(SEPARATOR);
            assert(sk[at] == SEPARATOR);
            assert(forall|j: int| 0 <= j < at ==> sk[j] == namespace[j]);
            let found = sk.index_of_first(SEPARATOR);
            assert(found == Some(at)) by {
                if found->0 < at {
                    assert(namespace[found->0] == SEPARATOR);
                }
            }
            assert(sk.take(at) =~= namespace);
            assert(sk.skip(at + 1) =~= alias);
        },
    }
}

/// Encoding undoes decoding: a sort key that is read as an identifier is the sort
/// key under which that identifier is stored.
pub proof fn encode_inverts_decode(kind: ObjectType, sort_key: Seq<char>)
    requires
        decoded(kind, sort_key) is Ok,
    ensures
        decoded(kind, sort_key)->Ok_0.encoded() == Ok::<_, InputError>(
            (kind.db_value(), sort_key),
        ),
{
    match kind {
        ObjectType::SeqInfo => {},
        ObjectType::SeqAlias => {
            sort_key.index_of_first_ensures(SEPARATOR);
            let at = sort_key.index_of_first(SEPARATOR)->0;
            let namespace = sort_key.take(at);
            let alias = sort_key.skip(at + 1);
            assert(free_of_separator(namespace)) by {
                if namespace.contains(SEPARATOR) {
                    let j = choose|j: int| 0 <= j < namespace.len() && namespace[j] == SEPARATOR;
                    assert(sort_key[j] == SEPARATOR);
                }
            }
            assert(alias_sort_key(namespace, alias) =~= sort_key);
        },
    }
}

/// No two valid identifiers share an address: the address tells the record.
pub proof fn encoding_is_injective(a: NaturalKeyView, b: NaturalKeyView)
    requires
        a.valid(),
        b.valid(),
        a.encoded() == b.encoded(),
    ensures
        a == b,
{
    tags_are_distinct();
    decode_inverts_encode(a);
    decode_inverts_encode(b);
}

} // verus!
