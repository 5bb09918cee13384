//! The record that the message store keeps per message: attribute names
//! mapped to string or number attributes.
use vstd::prelude::*;
use crate::table::Table;

verus! {

/// One attribute of a stored record. Numbers travel as their decimal text,
/// as the store's wire format has them; attributes of any other kind are
/// `Other`.
#[derive(Debug)]
pub enum AttrValue {
    S(String),
    N(String),
    Other,
}

/// What an attribute holds.
pub enum AttrView {
    S(Seq<char>),
    N(Seq<char>),
    Other,
}

impl View for AttrValue {
    type V = AttrView;

    open spec fn view(&self) -> AttrView {
        match self {
            AttrValue::S(s) => AttrView::S(s@),
            AttrValue::N(n) => AttrView::N(n@),
            AttrValue::Other => AttrView::Other,
        }
    }
}

impl AttrValue {
    /// The text of a string attribute.
    pub fn as_s(&self) -> (r: Option<&String>)
        ensures
            r is Some == self@ is S,
            r matches Some(s) ==> self@ == AttrView::S(s@),
    {
        match self {
            AttrValue::S(s) => Some(s),
            _ => None,
        }
    }

    /// The text of a number attribute.
    pub fn as_n(&self) -> (r: Option<&String>)
        ensures
            r is Some == self@ is N,
            r matches Some(n) ==> self@ == AttrView::N(n@),
    {
        match self {
            AttrValue::N(n) => Some(n),
            _ => None,
        }
    }
}

/// A stored record: attribute name to attribute.
#[derive(Debug)]
pub struct DbItem {
    table: Table<AttrValue>,
}

impl View for DbItem {
    type V = Map<Seq<char>, AttrView>;

    closed spec fn view(&self) -> Map<Seq<char>, AttrView> {
        self.table@.map_values(|v: AttrValue| v@)
    }
}

/// The string held under `key`, if `key` holds a string attribute.
pub open spec fn s_attr(item: Map<Seq<char>, AttrView>, key: Seq<char>) -> Option<Seq<char>> {
    if item.contains_key(key) && item[key] is S {
        Some(item[key]->S_0)
    } else {
        None
    }
}

/// The number text held under `key`, if `key` holds a number attribute.
pub open spec fn n_attr(item: Map<Seq<char>, AttrView>, key: Seq<char>) -> Option<Seq<char>> {
    if item.contains_key(key) && item[key] is N {
        Some(item[key]->N_0)
    } else {
        None
    }
}

impl DbItem {
    /// A record with no attributes.
    pub fn new() -> (r: Self)
        ensures
            r@ == Map::<Seq<char>, AttrView>::empty(),
    {
        let r = DbItem { table: Table::new() };
        assert(r@ =~= Map::<Seq<char>, AttrView>::empty());
        r
    }

    /// Whether the record has an attribute named `key`.
    pub fn contains_key(&self, key: &str) -> (r: bool)
        ensures
            r == self@.contains_key(key@),
    {
        self.table.contains_key(key)
    }

    /// The attribute named `key`, if any.
    pub fn get(&self, key: &str) -> (r: Option<&AttrValue>)
        ensures
            r is Some == self@.contains_key(key@),
            r matches Some(v) ==> v@ == self@[key@],
    {
        self.table.get(key)
    }

    /// Sets the attribute named `key`.
    pub fn insert(&mut self, key: String, value: AttrValue)
        ensures
            final(self)@ == old(self)@.insert(key@, value@),
    {
        let ghost v = value@;
        self.table.insert(key, value);
        assert(final(self)@ =~= old(self)@.insert(key@, v));
    }

    /// The string held under `key`, if `key` holds a string attribute.
    pub fn get_s(&self, key: &str) -> (r: Option<&String>)
        ensures
            r is Some == (s_attr(self@, key@) is Some),
            r matches Some(s) ==> s_attr(self@, key@) == Some(s@),
    {
        match self.get(key) {
            Some(v) => v.as_s(),
            None => None,
        }
    }

    /// The number text held under `key`, if `key` holds a number attribute.
    pub fn get_n(&self, key: &str) -> (r: Option<&String>)
        ensures
            r is Some == (n_attr(self@, key@) is Some),
            r matches Some(s) ==> n_attr(self@, key@) == Some(s@),
    {
        match self.get(key) {
            Some(v) => v.as_n(),
            None => None,
        }
    }

    /// The names of the record's attributes, each once.
    pub fn keys(&self) -> (r: Vec<String>)
        ensures
            forall|i: int| 0 <= i < r@.len() ==> self@.contains_key(#[trigger] r@[i]@),
            forall|x: Seq<char>| #[trigger] self@.contains_key(x) ==> exists|i: int| 0 <= i < r@.len() && #[trigger] r@[i]@ == x,
            forall|i: int, j: int| 0 <= i < r@.len() && 0 <= j < r@.len() && i != j ==> #[trigger] r@[i]@ != #[trigger] r@[j]@,
    {
        self.table.keys()
    }
}

} // verus!
