//! An interner: a store that gives each distinct text one small handle.
//!
//! The texts live in an append-only vector of the `boxcar` crate and are
//! found again through a hash map of the `papaya` crate. Both are driven
//! through an exclusive borrow here, so that what one call stores the next
//! call sees.

use vstd::prelude::*;

verus! {

/// `boxcar::Vec`, an append-only vector, taken as an opaque type.
#[verifier::external_type_specification]
#[verifier::external_body]
#[verifier::reject_recursive_types(T)]
pub struct ExBoxcarVec<T>(boxcar::Vec<T>);

/// `papaya::HashMap`, a hash map, taken as an opaque type.
#[verifier::external_type_specification]
#[verifier::external_body]
#[verifier::reject_recursive_types(K)]
#[verifier::reject_recursive_types(V)]
#[verifier::reject_recursive_types(S)]
pub struct ExPapayaMap<K, V, S>(papaya::HashMap<K, V, S>);

/// The texts that a store holds, in the order in which they were pushed.
pub uninterp spec fn stored_texts(store: boxcar::Vec<String>) -> Seq<Seq<char>>;

/// The entries of a table: the number that each text was inserted with.
pub uninterp spec fn table_entries(table: papaya::HashMap<String, usize>) -> Map<Seq<char>, usize>;

/// Number of elements that a `boxcar::Vec` takes on this machine: a push
/// behind that many panics.
pub open spec fn store_limit() -> int {
    isize::MAX - 31
}

/// Calls `boxcar::Vec::new`: the new store is empty.
#[verifier::external_body]
fn store_new() -> (store: boxcar::Vec<String>)
    ensures
        stored_texts(store) == Seq::<Seq<char>>::empty(),
{
    boxcar::Vec::new()
}

/// Calls `boxcar::Vec::clone`: the copy holds a copy of each text, in the
/// same order.
#[verifier::external_body]
fn store_clone(store: &boxcar::Vec<String>) -> (copy: boxcar::Vec<String>)
    ensures
        stored_texts(copy) == stored_texts(*store),
{
    store.clone()
}

/// Calls `boxcar::Vec::count`: the number of elements in the store.
#[verifier::external_body]
fn store_count(store: &boxcar::Vec<String>) -> (count: usize)
    ensures
        count == stored_texts(*store).len(),
{
    store.count()
}

/// Calls `boxcar::Vec::push`: the text is appended, and the index it was
/// stored at, which is the number of elements before the call, is handed
/// back. The exclusive borrow keeps other pushes out; `push` panics once
/// the store holds `store_limit()` elements.
#[verifier::external_body]
fn store_push(store: &mut boxcar::Vec<String>, text: String) -> (index: usize)
    requires
        stored_texts(*old(store)).len() < store_limit(),
    ensures
        stored_texts(*final(store)) == stored_texts(*old(store)).push(text@),
        index == stored_texts(*old(store)).len(),
{
    store.push(text)
}

/// Indexes a `boxcar::Vec`: the element at `index`. Indexing panics where
/// nothing was stored.
#[verifier::external_body]
fn store_get(store: &boxcar::Vec<String>, index: usize) -> (text: &str)
    requires
        index < stored_texts(*store).len(),
    ensures
        text@ == stored_texts(*store)[index as int],
{
    store[index].as_str()
}

/// Calls `papaya::HashMap::new`: the new table has no entries.
#[verifier::external_body]
fn table_new() -> (table: papaya::HashMap<String, usize>)
    ensures
        table_entries(table).dom() == Set::<Seq<char>>::empty(),
{
    papaya::HashMap::new()
}

/// Calls `papaya::HashMap::clone`: the copy has the same entries.
#[verifier::external_body]
fn table_clone(table: &papaya::HashMap<String, usize>) -> (copy: papaya::HashMap<String, usize>)
    ensures
        table_entries(copy) == table_entries(*table),
{
    table.clone()
}

/// Calls `get` on the pinned `papaya::HashMap`: the number that `key` was
/// inserted with, if it has an entry.
#[verifier::external_body]
fn table_get(table: &papaya::HashMap<String, usize>, key: &str) -> (found: Option<usize>)
    ensures
        found == (if table_entries(*table).contains_key(key@) {
            Some(table_entries(*table)[key@])
        } else {
            None
        }),
{
    table.pin().get(key).copied()
}

/// Calls `insert` on the pinned `papaya::HashMap`: `key` is given the entry
/// `value`, in place of any entry it had.
#[verifier::external_body]
fn table_insert(table: &mut papaya::HashMap<String, usize>, key: String, value: usize)
    ensures
        table_entries(*final(table)) == table_entries(*old(table)).insert(key@, value),
{
    table.pin().insert(key, value);
}

/// The handle of an interned text.
#[derive(Debug, Clone, Copy, PartialEq, Eq, Hash, Structural)]
pub struct StrId(usize);

impl StrId {
    /// The place of the text among the interned texts.
    pub closed spec fn slot(self) -> int {
        self.0 as int
    }

    /// The place of the text among the interned texts.
    pub fn index(self) -> (place: usize)
        ensures
            place == self.slot(),
    {
        self.0
    }

    /// Handles of the same place are the same handle.
    pub proof fn lemma_same_slot(self, other: StrId)
        requires
            self.slot() == other.slot(),
        ensures
            self == other,
    {
    }
}

/// A store of distinct texts.
#[derive(Debug)]
pub struct Interner {
    map: papaya::HashMap<String, usize>,
    data: boxcar::Vec<String>,
}

/// The place of `text` among `texts`, if it is there.
pub open spec fn place_of(texts: Seq<Seq<char>>, text: Seq<char>) -> Option<int> {
    if texts.contains(text) {
        Some(texts.index_of(text))
    } else {
        None
    }
}

/// What interning `text` into `texts` gives: the texts afterwards and the
/// place of `text` among them. A text that is there keeps its place and
/// nothing changes; a new text is put at the end.
pub open spec fn interned(texts: Seq<Seq<char>>, text: Seq<char>) -> (Seq<Seq<char>>, int) {
    match place_of(texts, text) {
        Some(place) => (texts, place),
        None => (texts.push(text), texts.len() as int),
    }
}

/// No text occurs twice.
pub open spec fn distinct(texts: Seq<Seq<char>>) -> bool {
    forall|i: int, j: int| 0 <= i < j < texts.len() ==> texts[i] != texts[j]
}

/// Interning keeps the texts distinct, never moves one, and the place it
/// hands back holds the text.
pub proof fn lemma_interned(texts: Seq<Seq<char>>, text: Seq<char>)
    requires
        distinct(texts),
    ensures
        distinct(interned(texts, text).0),
        0 <= interned(texts, text).1 < interned(texts, text).0.len(),
        interned(texts, text).0[interned(texts, text).1] == text,
        texts.len() <= interned(texts, text).0.len(),
        forall|i: int| 0 <= i < texts.len() ==> interned(texts, text).0[i] == texts[i],
{
    if !texts.contains(text) {
        let after = texts.push(text);
        assert forall|i: int, j: int| 0 <= i < j < after.len() implies after[i] != after[j] by {
            if j == texts.len() {
                assert(texts[i] == after[i]);
                assert(texts.contains(texts[i]));
            }
        }
    }
}

/// Interning a text a second time hands back the same place and changes
/// nothing.
pub proof fn lemma_intern_idempotent(texts: Seq<Seq<char>>, text: Seq<char>)
    requires
        distinct(texts),
    ensures
        interned(interned(texts, text).0, text) == interned(texts, text),
{
    let (after, place) = interned(texts, text);
    lemma_interned(texts, text);
    assert(after.contains(text));
    let again = after.index_of(text);
    if again != place {
        if again < place {
            assert(after[again] != after[place]);
        } else {
            assert(after[place] != after[again]);
        }
    }
}

/// Equal texts are interned at equal places, whatever was interned in
/// between.
pub proof fn lemma_intern_stable(texts: Seq<Seq<char>>, text: Seq<char>, other: Seq<char>)
    requires
        distinct(texts),
    ensures
        interned(interned(interned(texts, text).0, other).0, text).1 == interned(texts, text).1,
{
    let (first, place) = interned(texts, text);
    lemma_interned(texts, text);
    let (second, _) = interned(first, other);
    lemma_interned(first, other);
    assert(second[place] == text);
    assert(second.contains(text));
    let again = second.index_of(text);
    if again != place {
        if again < place {
            assert(second[again] != second[place]);
        } else {
            assert(second[place] != second[again]);
        }
    }
}

impl View for Interner {
    type V = Seq<Seq<char>>;

    /// The interned texts, each at the place that its handle names.
    closed spec fn view(&self) -> Seq<Seq<char>> {
        stored_texts(self.data)
    }
}

impl Interner {
    /// The interner is well formed: its table finds exactly the stored
    /// texts, each at its place.
    pub closed spec fn wf(&self) -> bool {
        consistent(table_entries(self.map), stored_texts(self.data))
    }

    /// The texts of a well-formed interner are distinct.
    pub proof fn lemma_distinct(&self)
        requires
            self.wf(),
        ensures
            distinct(self@),
    {
        lemma_consistent_distinct(table_entries(self.map), self@);
    }

    /// An interner that holds no text.
    pub fn new() -> (interner: Interner)
        ensures
            interner.wf(),
            interner@ == Seq::<Seq<char>>::empty(),
    {
        Interner { map: table_new(), data: store_new() }
    }

    /// Number of interned texts.
    pub fn len(&self) -> (count: usize)
        ensures
            count == self@.len(),
    {
        store_count(&self.data)
    }

    /// The handle of `text`: the one it was given before, or a new one.
    pub fn intern(&mut self, text: &str) -> (id: StrId)
        requires
            old(self).wf(),
            old(self)@.contains(text@) || old(self)@.len() < store_limit(),
        ensures
            final(self).wf(),
            (final(self)@, id.slot()) == interned(old(self)@, text@),
            0 <= id.slot() < final(self)@.len(),
            final(self)@[id.slot()] == text@,
    {
        proof {
            lemma_consistent_distinct(table_entries(self.map), self@);
            lemma_interned(self@, text@);
        }
        match table_get(&self.map, text) {
            Some(index) => {
                proof {
                    lemma_place(self@, text@, index as int);
                }
                StrId(index)
            },
            None => StrId(Self::add(&mut self.map, &mut self.data, text)),
        }
    }

    /// The handle of `text`, unless `text` is new and the store is full.
    pub fn try_intern(&mut self, text: &str) -> (id: Option<StrId>)
        requires
            old(self).wf(),
        ensures
            final(self).wf(),
            id is None <==> !old(self)@.contains(text@) && old(self)@.len() >= store_limit(),
            match id {
                Some(id) => (final(self)@, id.slot()) == interned(old(self)@, text@),
                None => final(self)@ == old(self)@,
            },
    {
        proof {
            lemma_consistent_distinct(table_entries(self.map), self@);
        }
        if table_get(&self.map, text).is_some() || self.len() < Self::limit() {
            Some(self.intern(text))
        } else {
            None
        }
    }

    /// Number of texts that an interner takes on this machine.
    pub fn limit() -> (limit: usize)
        ensures
            limit == store_limit(),
    {
        (isize::MAX - 31) as usize
    }

    /// The text that `id` stands for.
    pub fn get(&self, id: StrId) -> (text: &str)
        requires
            0 <= id.slot() < self@.len(),
        ensures
            text@ == self@[id.slot()],
    {
        store_get(&self.data, id.0)
    }

    /// Stores a text that has no entry yet and enters it in the table.
    fn add(
        map: &mut papaya::HashMap<String, usize>,
        data: &mut boxcar::Vec<String>,
        text: &str,
    ) -> (index: usize)
        requires
            consistent(table_entries(*old(map)), stored_texts(*old(data))),
            !table_entries(*old(map)).contains_key(text@),
            stored_texts(*old(data)).len() < store_limit(),
        ensures
            consistent(table_entries(*final(map)), stored_texts(*final(data))),
            stored_texts(*final(data)) == stored_texts(*old(data)).push(text@),
            index == stored_texts(*old(data)).len(),
    {
        let index = store_push(data, text.to_owned());
        table_insert(map, text.to_owned(), index);
        index
    }
}

impl Clone for Interner {
    /// An interner of its own that holds the same texts under the same
    /// handles.
    fn clone(&self) -> (copy: Interner)
        ensures
            copy@ == self@,
            self.wf() ==> copy.wf(),
    {
        Interner { map: table_clone(&self.map), data: store_clone(&self.data) }
    }
}

impl Default for Interner {
    fn default() -> (interner: Interner)
        ensures
            interner.wf(),
            interner@ == Seq::<Seq<char>>::empty(),
    {
        Interner::new()
    }
}

/// The table finds exactly the stored texts, each at its place.
pub open spec fn consistent(entries: Map<Seq<char>, usize>, texts: Seq<Seq<char>>) -> bool {
    &&& forall|i: int|
        0 <= i < texts.len() ==> entries.contains_key(#[trigger] texts[i]) && entries[texts[i]]
            == i
    &&& forall|text: Seq<char>| #[trigger]
        entries.contains_key(text) ==> entries[text] < texts.len() && texts[entries[text] as int]
            == text
}

/// Texts that a table finds at their places are distinct.
proof fn lemma_consistent_distinct(entries: Map<Seq<char>, usize>, texts: Seq<Seq<char>>)
    requires
        consistent(entries, texts),
    ensures
        distinct(texts),
        forall|text: Seq<char>| entries.contains_key(text) <==> texts.contains(text),
{
    assert forall|text: Seq<char>| texts.contains(text) implies entries.contains_key(text) by {
        let i = texts.index_of(text);
        assert(texts[i] == text);
    }
    assert forall|text: Seq<char>| entries.contains_key(text) implies texts.contains(text) by {
        assert(texts[entries[text] as int] == text);
    }
}

/// In distinct texts, a text has one place.
proof fn lemma_place(texts: Seq<Seq<char>>, text: Seq<char>, place: int)
    requires
        distinct(texts),
        0 <= place < texts.len(),
        texts[place] == text,
    ensures
        place_of(texts, text) == Some(place),
{
    assert(texts.contains(text));
    let found = texts.index_of(text);
    if found != place {
        if found < place {
            assert(texts[found] != texts[place]);
        } else {
            assert(texts[place] != texts[found]);
        }
    }
}

} // verus!
