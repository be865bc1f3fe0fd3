//! A JSON document as a tree of plain values, with its mathematical view.

use crate::text::str_eq;
use vstd::prelude::*;

verus! {

/// A JSON document.
///
/// Integers keep the two ranges a JSON reader distinguishes: `PosInt` for
/// what fits `u64`, `NegInt` for what fits `i64`. A number that is no integer
/// is carried as its decimal text.
#[derive(Debug)]
pub enum Json {
    Null,
    Bool(bool),
    PosInt(u64),
    NegInt(i64),
    Float(String),
    Str(String),
    Array(Vec<Json>),
    Object(JsonMap),
}

/// The members of a JSON object: an association list in which the last
/// member stored under a key is the one the key stands for.
#[derive(Debug)]
pub struct JsonMap {
    entries: Vec<(String, Json)>,
}

/// The mathematical value of a JSON document.
pub enum JsonView {
    Null,
    Bool(bool),
    Int(int),
    Float(Seq<char>),
    Str(Seq<char>),
    Array(Seq<JsonView>),
    Object(Map<Seq<char>, JsonView>),
}

/// The map that a list of members stands for: later members override
/// earlier ones with the same key.
pub open spec fn map_of(members: Seq<(Seq<char>, JsonView)>) -> Map<Seq<char>, JsonView>
    decreases members.len(),
{
    if members.len() == 0 {
        Map::empty()
    } else {
        map_of(members.drop_last()).insert(members.last().0, members.last().1)
    }
}

/// The views of a list of documents, element by element.
pub open spec fn items_view(items: Seq<Json>) -> Seq<JsonView>
    decreases items, 0nat,
{
    Seq::new(
        items.len(),
        |i: int|
            if 0 <= i < items.len() {
                items[i]@
            } else {
                JsonView::Null
            },
    )
}

impl JsonMap {
    /// The stored members, as (key, value) views in stored order.
    pub closed spec fn members(&self) -> Seq<(Seq<char>, JsonView)>
        decreases self, 0nat,
    {
        Seq::new(
            self.entries@.len(),
            |i: int|
                if 0 <= i < self.entries@.len() {
                    (self.entries@[i].0@, self.entries@[i].1@)
                } else {
                    (Seq::empty(), JsonView::Null)
                },
        )
    }
}

impl View for JsonMap {
    type V = Map<Seq<char>, JsonView>;

    open spec fn view(&self) -> Map<Seq<char>, JsonView>
        decreases self, 1nat,
    {
        map_of(self.members())
    }
}

impl View for Json {
    type V = JsonView;

    open spec fn view(&self) -> JsonView
        decreases self, 0nat,
    {
        match self {
            Json::Null => JsonView::Null,
            Json::Bool(b) => JsonView::Bool(*b),
            Json::PosInt(n) => JsonView::Int(*n as int),
            Json::NegInt(n) => JsonView::Int(*n as int),
            Json::Float(t) => JsonView::Float(t@),
            Json::Str(t) => JsonView::Str(t@),
            Json::Array(items) => JsonView::Array(items_view(items@)),
            Json::Object(m) => JsonView::Object(m@),
        }
    }
}

/// Whether `key` is stored at `i` and at no later position.
pub open spec fn is_last_at(members: Seq<(Seq<char>, JsonView)>, key: Seq<char>, i: int) -> bool {
    &&& 0 <= i < members.len()
    &&& members[i].0 == key
    &&& forall|j: int| i < j < members.len() ==> members[j].0 != key
}

/// A key stored at `i` and at no later position is in the map with the
/// value stored at `i`.
pub proof fn lemma_map_of_last(members: Seq<(Seq<char>, JsonView)>, i: int)
    requires
        0 <= i < members.len(),
        forall|j: int| i < j < members.len() ==> members[j].0 != members[i].0,
    ensures
        map_of(members).contains_key(members[i].0),
        map_of(members)[members[i].0] == members[i].1,
    decreases members.len(),
{
    if i < members.len() - 1 {
        lemma_map_of_last(members.drop_last(), i);
    }
}

/// A key stored nowhere is not in the map.
pub proof fn lemma_map_of_absent(members: Seq<(Seq<char>, JsonView)>, key: Seq<char>)
    requires
        forall|j: int| 0 <= j < members.len() ==> members[j].0 != key,
    ensures
        !map_of(members).contains_key(key),
    decreases members.len(),
{
    if members.len() > 0 {
        lemma_map_of_absent(members.drop_last(), key);
    }
}

/// Appending a member inserts it into the map.
pub proof fn lemma_map_of_push(members: Seq<(Seq<char>, JsonView)>, key: Seq<char>, value: JsonView)
    ensures
        map_of(members.push((key, value))) == map_of(members).insert(key, value),
{
    assert(members.push((key, value)).drop_last() =~= members);
}

/// Replacing the value at the last position of a key inserts the new value
/// into the map.
pub proof fn lemma_map_of_replace(members: Seq<(Seq<char>, JsonView)>, i: int, value: JsonView)
    requires
        0 <= i < members.len(),
        forall|j: int| i < j < members.len() ==> members[j].0 != members[i].0,
    ensures
        map_of(members.update(i, (members[i].0, value))) == map_of(members).insert(
            members[i].0,
            value,
        ),
    decreases members.len(),
{
    let key = members[i].0;
    let updated = members.update(i, (key, value));
    if i == members.len() - 1 {
        assert(updated.drop_last() =~= members.drop_last());
        assert(map_of(updated) =~= map_of(members).insert(key, value));
    } else {
        lemma_map_of_replace(members.drop_last(), i, value);
        assert(updated.drop_last() =~= members.drop_last().update(i, (key, value)));
        assert(map_of(updated) =~= map_of(members).insert(key, value));
    }
}

/// The map of a list of members has finitely many keys.
pub proof fn lemma_map_of_finite(members: Seq<(Seq<char>, JsonView)>)
    ensures
        map_of(members).dom().finite(),
    decreases members.len(),
{
    if members.len() > 0 {
        lemma_map_of_finite(members.drop_last());
    }
}

impl JsonMap {
    /// An object without members.
    pub fn new() -> (m: JsonMap)
        ensures
            m@ == Map::<Seq<char>, JsonView>::empty(),
            m.members() == Seq::<(Seq<char>, JsonView)>::empty(),
    {
        let m = JsonMap { entries: Vec::new() };
        assert(m.members() =~= Seq::empty());
        m
    }

    /// The number of stored members.
    pub fn len(&self) -> (n: usize)
        ensures
            n == self.members().len(),
    {
        self.entries.len()
    }

    /// The member stored at position `i`.
    pub fn entry(&self, i: usize) -> (e: (&String, &Json))
        requires
            i < self.members().len(),
        ensures
            (e.0@, e.1@) == self.members()[i as int],
    {
        (&self.entries[i].0, &self.entries[i].1)
    }

    /// The position of the last member stored under `key`, if there is one.
    fn position(&self, key: &str) -> (at: Option<usize>)
        ensures
            match at {
                Some(i) => is_last_at(self.members(), key@, i as int),
                None => forall|j: int| 0 <= j < self.members().len() ==> self.members()[j].0 != key@,
            },
    {
        let mut i: usize = self.entries.len();
        while i > 0
            invariant
                i <= self.entries@.len(),
                self.entries@.len() == self.members().len(),
                forall|j: int| i <= j < self.members().len() ==> self.members()[j].0 != key@,
            decreases i,
        {
            i -= 1;
            if str_eq(self.entries[i].0.as_str(), key) {
                return Some(i);
            }
        }
        None
    }

    /// The value that `key` stands for.
    pub fn get(&self, key: &str) -> (found: Option<&Json>)
        ensures
            match found {
                Some(v) => self@.contains_key(key@) && self@[key@] == v@,
                None => !self@.contains_key(key@),
            },
    {
        match self.position(key) {
            Some(i) => {
                proof {
                    lemma_map_of_last(self.members(), i as int);
                }
                Some(&self.entries[i].1)
            },
            None => {
                proof {
                    lemma_map_of_absent(self.members(), key@);
                }
                None
            },
        }
    }

    /// Makes `key` stand for `value`. Where the key stood for something
    /// before, the new member takes the place of the last member stored under
    /// the key; otherwise it is stored behind all others.
    pub fn insert(&mut self, key: &str, value: Json)
        ensures
            final(self)@ == old(self)@.insert(key@, value@),
            old(self)@.contains_key(key@) ==> exists|i: int|
                is_last_at(old(self).members(), key@, i) && final(self).members() == old(
                    self,
                ).members().update(i, (key@, value@)),
            !old(self)@.contains_key(key@) ==> final(self).members() == old(self).members().push(
                (key@, value@),
            ),
    {
        match self.position(key) {
            Some(i) => {
                proof {
                    lemma_map_of_replace(self.members(), i as int, value@);
                    lemma_map_of_last(self.members(), i as int);
                }
                let ghost before = self.members();
                self.entries.set(i, (key.to_owned(), value));
                assert(self.members() =~= before.update(i as int, (key@, value@)));
            },
            None => {
                proof {
                    lemma_map_of_push(self.members(), key@, value@);
                    lemma_map_of_absent(self.members(), key@);
                }
                let ghost before = self.members();
                self.entries.push((key.to_owned(), value));
                assert(self.members() =~= before.push((key@, value@)));
            },
        }
    }
}

impl Clone for JsonMap {
    fn clone(&self) -> (copy: JsonMap)
        ensures
            copy@ == self@,
            copy.members() == self.members(),
        decreases self,
    {
        let mut entries: Vec<(String, Json)> = Vec::new();
        let mut i: usize = 0;
        while i < self.entries.len()
            invariant
                i <= self.entries@.len(),
                entries@.len() == i,
                forall|j: int|
                    0 <= j < i ==> entries@[j].0@ == self.entries@[j].0@ && entries@[j].1@
                        == self.entries@[j].1@,
            decreases self.entries@.len() - i,
        {
            let key = self.entries[i].0.clone();
            proof {
                vstd::std_specs::vec::axiom_vec_index_decreases(self.entries, i as int);
            }
            let value = self.entries[i].1.clone();
            entries.push((key, value));
            i += 1;
        }
        let copy = JsonMap { entries };
        assert(copy.members() =~= self.members());
        copy
    }
}

impl Clone for Json {
    fn clone(&self) -> (copy: Json)
        ensures
            copy@ == self@,
        decreases self,
    {
        match self {
            Json::Null => Json::Null,
            Json::Bool(b) => Json::Bool(*b),
            Json::PosInt(n) => Json::PosInt(*n),
            Json::NegInt(n) => Json::NegInt(*n),
            Json::Float(t) => Json::Float(t.clone()),
            Json::Str(t) => Json::Str(t.clone()),
            Json::Array(items) => {
                let mut copies: Vec<Json> = Vec::new();
                let mut i: usize = 0;
                while i < items.len()
                    invariant
                        self is Array && self->Array_0 == *items,
                        i <= items@.len(),
                        copies@.len() == i,
                        forall|j: int| 0 <= j < i ==> copies@[j]@ == items@[j]@,
                    decreases items@.len() - i,
                {
                    proof {
                        vstd::std_specs::vec::axiom_vec_index_decreases(*items, i as int);
                    }
                    let item = items[i].clone();
                    copies.push(item);
                    i += 1;
                }
                assert(items_view(copies@) =~= items_view(items@));
                Json::Array(copies)
            },
            Json::Object(m) => Json::Object(m.clone()),
        }
    }
}

impl Json {
    /// A JSON string with the characters of `s`.
    pub fn string(s: &str) -> (doc: Json)
        ensures
            doc@ == JsonView::Str(s@),
    {
        Json::Str(s.to_owned())
    }

    /// The text of a JSON string; `None` for any other document.
    pub fn as_str(&self) -> (text: Option<&String>)
        ensures
            match text {
                Some(s) => self@ == JsonView::Str(s@),
                None => !(self@ is Str),
            },
    {
        match self {
            Json::Str(s) => Some(s),
            _ => None,
        }
    }

    /// The member `key` of a JSON object; `None` where there is none or the
    /// document is no object.
    pub fn get(&self, key: &str) -> (found: Option<&Json>)
        ensures
            match found {
                Some(v) => member(self@, key@) == Some(v@),
                None => member(self@, key@) is None,
            },
    {
        match self {
            Json::Object(m) => m.get(key),
            _ => None,
        }
    }
}

/// The member `key` of a document, where the document is an object that has
/// one.
pub open spec fn member(doc: JsonView, key: Seq<char>) -> Option<JsonView> {
    match doc {
        JsonView::Object(m) => if m.contains_key(key) {
            Some(m[key])
        } else {
            None
        },
        _ => None,
    }
}

} // verus!
