//! The store's representation of a record: named attributes of a few primitive types.

use crate::text::str_eq;
use vstd::prelude::*;
use vstd::string::*;

verus! {

/// One attribute value. The store knows more types than records use; a value of
/// any of those is `Other`.
#[derive(Debug, Clone, PartialEq, Eq)]
pub enum AttributeValue {
    /// A string.
    S(String),
    /// A number, in the store's decimal text form.
    N(String),
    /// A boolean.
    Bool(bool),
    /// A value of a type that no record field has.
    Other,
}

/// An attribute value as plain data.
pub enum AttributeValueView {
    S(Seq<char>),
    N(Seq<char>),
    Bool(bool),
    Other,
}

impl View for AttributeValue {
    type V = AttributeValueView;

    open spec fn view(&self) -> AttributeValueView {
        match self {
            AttributeValue::S(s) => AttributeValueView::S(s@),
            AttributeValue::N(n) => AttributeValueView::N(n@),
            AttributeValue::Bool(b) => AttributeValueView::Bool(*b),
            AttributeValue::Other => AttributeValueView::Other,
        }
    }
}

impl AttributeValue {
    /// A copy that holds the same data.
    pub fn duplicate(&self) -> (copy: AttributeValue)
        ensures
            copy@ == self@,
    {
        match self {
            AttributeValue::S(s) => AttributeValue::S(s.clone()),
            AttributeValue::N(n) => AttributeValue::N(n.clone()),
            AttributeValue::Bool(b) => AttributeValue::Bool(*b),
            AttributeValue::Other => AttributeValue::Other,
        }
    }
}

/// A named attribute.
#[derive(Debug, Clone, PartialEq, Eq)]
pub struct Attribute {
    pub name: String,
    pub value: AttributeValue,
}

/// An item as plain data: attribute values by name.
pub type Item = Map<Seq<char>, AttributeValueView>;

/// Whether some entry of `entries` has the name `name`.
pub open spec fn has_name(entries: Seq<Attribute>, name: Seq<char>) -> bool {
    exists|i: int| 0 <= i < entries.len() && #[trigger] entries[i].name@ == name
}

/// The index of an entry of `entries` with the name `name`.
pub open spec fn index_of_name(entries: Seq<Attribute>, name: Seq<char>) -> int {
    choose|i: int| 0 <= i < entries.len() && #[trigger] entries[i].name@ == name
}

/// Whether no two entries of `entries` share a name.
pub open spec fn distinct_names(entries: Seq<Attribute>) -> bool {
    forall|i: int, j: int|
        0 <= i < entries.len() && 0 <= j < entries.len() && #[trigger] entries[i].name@
            == #[trigger] entries[j].name@ ==> i == j
}

/// The item that a list of entries with distinct names stands for.
pub open spec fn item_of(entries: Seq<Attribute>) -> Item {
    Map::new(
        |name: Seq<char>| has_name(entries, name),
        |name: Seq<char>| entries[index_of_name(entries, name)].value@,
    )
}

/// The attributes of one item. No name occurs twice.
#[derive(Debug)]
pub struct AttributeMap {
    entries: Vec<Attribute>,
}

impl View for AttributeMap {
    type V = Item;

    closed spec fn view(&self) -> Item {
        item_of(self.entries@)
    }
}

impl AttributeMap {
    #[verifier::type_invariant]
    spec fn well_formed(self) -> bool {
        distinct_names(self.entries@)
    }

    /// An item without attributes.
    pub fn new() -> (empty: AttributeMap)
        ensures
            empty@ == Map::<Seq<char>, AttributeValueView>::empty(),
    {
        let empty = AttributeMap { entries: Vec::new() };
        assert(empty@ =~= Map::<Seq<char>, AttributeValueView>::empty());
        empty
    }

    /// The position of the attribute `name`, if the item has it.
    fn position(&self, name: &str) -> (at: Option<usize>)
        ensures
            match at {
                Some(i) => i < self.entries@.len() && self.entries@[i as int].name@ == name@,
                None => !has_name(self.entries@, name@),
            },
    {
        let mut i: usize = 0;
        while i < self.entries.len()
            invariant
                i <= self.entries@.len(),
                forall|k: int| 0 <= k < i ==> self.entries@[k].name@ != name@,
            decreases self.entries@.len() - i,
        {
            if str_eq(self.entries[i].name.as_str(), name) {
                return Some(i);
            }
            i += 1;
        }
        None
    }

    /// Sets the attribute `name` to `value`, whether or not the item had it.
    pub fn insert(&mut self, name: String, value: AttributeValue)
        ensures
            final(self)@ == old(self)@.insert(name@, value@),
    {
        proof {
            use_type_invariant(&*self);
        }
        let ghost before = self.entries@;
        let ghost key = name@;
        let ghost val = value@;
        let found = self.position(name.as_str());
        let mut entries: Vec<Attribute> = Vec::new();
        std::mem::swap(&mut entries, &mut self.entries);
        match found {
            Some(i) => {
                entries.set(i, Attribute { name, value });
                proof {
                    let after = entries@;
                    assert forall|k: Seq<char>| has_name(after, k) == (has_name(before, k) || k
                        == key) by {
                        if has_name(before, k) {
                            let j = index_of_name(before, k);
                            assert(after[j].name@ == k);
                        }
                        if has_name(after, k) {
                            let j = index_of_name(after, k);
                            assert(before[j].name@ == k);
                        }
                        if k == key {
                            assert(after[i as int].name@ == k);
                        }
                    }
                    assert forall|k: Seq<char>| has_name(after, k) implies item_of(after)[k]
                        == item_of(before).insert(key, val)[k] by {
                        let j = index_of_name(after, k);
                        if k != key {
                            assert(before[j].name@ == k);
                            assert(index_of_name(before, k) == j);
                        }
                    }
                    assert(item_of(after) =~= item_of(before).insert(key, val));
                }
            },
            None => {
                entries.push(Attribute { name, value });
                proof {
                    let after = entries@;
                    let last = before.len() as int;
                    assert forall|k: Seq<char>| has_name(after, k) == (has_name(before, k) || k
                        == key) by {
                        if has_name(before, k) {
                            let j = index_of_name(before, k);
                            assert(after[j].name@ == k);
                        }
                        if has_name(after, k) {
                            let j = index_of_name(after, k);
                            if j < last {
                                assert(before[j].name@ == k);
                            }
                        }
                        if k == key {
                            assert(after[last].name@ == k);
                        }
                    }
                    assert forall|k: Seq<char>| has_name(after, k) implies item_of(after)[k]
                        == item_of(before).insert(key, val)[k] by {
                        let j = index_of_name(after, k);
                        if k != key {
                            assert(before[j].name@ == k);
                            assert(index_of_name(before, k) == j);
                        }
                    }
                    assert(item_of(after) =~= item_of(before).insert(key, val));
                }
            },
        }
        self.entries = entries;
    }

    /// The value of the attribute `name`, if the item has it.
    pub fn get(&self, name: &str) -> (value: Option<&AttributeValue>)
        ensures
            match value {
                Some(v) => self@.contains_key(name@) && self@[name@] == v@,
                None => !self@.contains_key(name@),
            },
    {
        proof {
            use_type_invariant(self);
        }
        match self.position(name) {
            Some(i) => {
                assert(index_of_name(self.entries@, name@) == i);
                Some(&self.entries[i].value)
            },
            None => None,
        }
    }

    /// How many attributes the item has.
    pub fn len(&self) -> (count: usize)
        ensures
            count == self@.dom().len(),
            self@.dom().finite(),
    {
        proof {
            use_type_invariant(self);
            lemma_domain_size(self.entries@);
        }
        self.entries.len()
    }

    /// The attributes, each name once.
    pub fn entries(&self) -> (entries: &Vec<Attribute>)
        ensures
            distinct_names(entries@),
            item_of(entries@) == self@,
    {
        proof {
            use_type_invariant(self);
        }
        &self.entries
    }

    /// A copy that holds the same attributes.
    pub fn duplicate(&self) -> (copy: AttributeMap)
        ensures
            copy@ == self@,
    {
        proof {
            use_type_invariant(self);
        }
        let mut entries: Vec<Attribute> = Vec::new();
        let mut i: usize = 0;
        while i < self.entries.len()
            invariant
                i <= self.entries@.len(),
                entries@.len() == i,
                forall|k: int|
                    0 <= k < i ==> entries@[k].name@ == self.entries@[k].name@ && entries@[k].value@
                        == self.entries@[k].value@,
            decreases self.entries@.len() - i,
        {
            let entry = &self.entries[i];
            entries.push(Attribute { name: entry.name.clone(), value: entry.value.duplicate() });
            i += 1;
        }
        proof {
            lemma_same_entries_same_item(self.entries@, entries@);
        }
        AttributeMap { entries }
    }
}

impl Clone for AttributeMap {
    fn clone(&self) -> (copy: AttributeMap)
        ensures
            copy@ == self@,
    {
        self.duplicate()
    }
}

/// Two lists that agree entry by entry in names and values stand for one item, and
/// have distinct names together.
pub proof fn lemma_same_entries_same_item(a: Seq<Attribute>, b: Seq<Attribute>)
    requires
        a.len() == b.len(),
        forall|k: int| 0 <= k < a.len() ==> a[k].name@ == b[k].name@ && a[k].value@ == b[k].value@,
        distinct_names(a),
    ensures
        distinct_names(b),
        item_of(a) == item_of(b),
{
    assert forall|k: Seq<char>| has_name(a, k) == has_name(b, k) by {
        if has_name(a, k) {
            assert(b[index_of_name(a, k)].name@ == k);
        }
        if has_name(b, k) {
            assert(a[index_of_name(b, k)].name@ == k);
        }
    }
    assert forall|k: Seq<char>| has_name(a, k) implies item_of(a)[k] == item_of(b)[k] by {
        let j = index_of_name(b, k);
        assert(a[j].name@ == k);
        assert(index_of_name(a, k) == j);
    }
    assert(item_of(a) =~= item_of(b));
}

/// An item has as many attributes as its list has entries.
pub proof fn lemma_domain_size(entries: Seq<Attribute>)
    requires
        distinct_names(entries),
    ensures
        item_of(entries).dom().finite(),
        item_of(entries).dom().len() == entries.len(),
    decreases entries.len(),
{
    if entries.len() == 0 {
        assert(item_of(entries).dom() =~= Set::<Seq<char>>::empty());
    } else {
        let rest = entries.drop_last();
        let last = entries.last();
        lemma_domain_size(rest);
        assert(!has_name(rest, last.name@)) by {
            if has_name(rest, last.name@) {
                let j = index_of_name(rest, last.name@);
                assert(entries[j].name@ == entries[entries.len() - 1].name@);
            }
        }
        assert forall|k: Seq<char>| has_name(entries, k) == (has_name(rest, k) || k
            == last.name@) by {
            if has_name(rest, k) {
                assert(entries[index_of_name(rest, k)].name@ == k);
            }
            if has_name(entries, k) {
                let j = index_of_name(entries, k);
                if j < rest.len() {
                    assert(rest[j].name@ == k);
                }
            }
            if k == last.name@ {
                assert(entries[entries.len() - 1].name@ == k);
            }
        }
        assert(item_of(entries).dom() =~= item_of(rest).dom().insert(last.name@));
    }
}

} // verus!
