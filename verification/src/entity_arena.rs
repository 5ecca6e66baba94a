//! Arena storage for syntax-tree nodes.
//!
//! An arena owns the nodes of one kind and hands out a handle for each: a
//! small integer, not a pointer. Lists of handles, such as the arguments of
//! a call, are kept in one shared pool of the `cranelift-entity` crate and
//! named by list handles.
//!
//! The nodes themselves lie in a `Vec`, numbered as that crate's
//! `PrimaryMap` numbers them: `insert` hands back the handle of the old
//! length, and a handle finds the node at its index. The arena is generic
//! in the type of its nodes, so what it holds is stated over the view of
//! that `Vec`, for every node type at once.

use crate::span::union_all;
use crate::span::union_of;
use crate::span::Span;
use crate::span::Spanned;
use core::marker::PhantomData;
use core::ops::Index;
use cranelift_entity::packed_option::ReservedValue;
use cranelift_entity::EntityRef;
use vstd::prelude::*;

verus! {

/// A handle: a dense index into the arena of its kind.
pub trait Handle: Copy + Sized {
    /// The index that the handle wraps.
    spec fn raw(self) -> u32;

    /// The handle of the node at index `raw`.
    fn from_raw(raw: u32) -> (handle: Self)
        ensures
            handle.raw() == raw,
    ;

    /// The index that the handle wraps.
    fn to_raw(self) -> (raw: u32)
        ensures
            raw == self.raw(),
    ;

    /// Handles that wrap the same index are the same handle.
    proof fn lemma_same_raw(self, other: Self)
        requires
            self.raw() == other.raw(),
        ensures
            self == other,
    ;
}

/// The element type of the list pool: a bare index.
#[derive(Debug, Clone, Copy, PartialEq, Eq, Hash)]
struct Slot(u32);

impl Slot {
    /// The index that the slot holds.
    pub closed spec fn raw(self) -> u32 {
        self.0
    }
}

/// The pool numbers its slots, and stores the length of each list in a
/// slot, through these two conversions.
impl EntityRef for Slot {
    /// The slot that holds `index`, cut down to its low 32 bits. An index
    /// that fits in 32 bits is held as it is.
    fn new(index: usize) -> (slot: Slot)
        ensures
            slot.raw() == index as u32,
            index <= u32::MAX ==> slot.raw() == index,
    {
        Slot(index as u32)
    }

    /// The index that the slot holds.
    fn index(self) -> (index: usize)
        ensures
            index == self.raw(),
    {
        self.0 as usize
    }
}

/// The pool fills the unused part of a block with the reserved slot.
impl ReservedValue for Slot {
    /// The slot that stands for no index: it holds the largest 32-bit
    /// number.
    fn reserved_value() -> (slot: Slot)
        ensures
            slot.raw() == u32::MAX,
    {
        Slot(u32::MAX)
    }

    /// True when the slot is the reserved one.
    fn is_reserved_value(&self) -> (reserved: bool)
        ensures
            reserved == (self.raw() == u32::MAX),
    {
        self.0 == u32::MAX
    }
}

/// A pool of `cranelift_entity::ListPool` that holds every list of one
/// arena.
#[verifier::external_body]
#[derive(Debug)]
pub struct HandlePool {
    pool: cranelift_entity::ListPool<Slot>,
}

/// A list of `cranelift_entity::EntityList`, allocated from a pool.
#[verifier::external_body]
#[derive(Debug, PartialEq, Eq, Hash)]
pub struct RawList {
    list: cranelift_entity::EntityList<Slot>,
}

impl Clone for RawList {
    fn clone(&self) -> (list: RawList)
        ensures
            list == *self,
    {
        *self
    }
}

impl Copy for RawList {}

/// The lists that were allocated from a pool, by key, each with the
/// indices it holds in order.
pub uninterp spec fn pool_lists(pool: HandlePool) -> Map<int, Seq<u32>>;

/// Number of elements of a pool's backing vector that are in use.
pub uninterp spec fn pool_extent(pool: HandlePool) -> nat;

/// The key of a list: the offset of its first element in the pool's
/// backing vector, which is 0 for the empty list and for no other.
pub uninterp spec fn list_key(list: RawList) -> int;

/// By how much `size` has to grow to be greater than `len`.
pub open spec fn short_by(len: nat, size: nat) -> nat {
    if size <= len {
        (len - size + 1) as nat
    } else {
        0
    }
}

/// The least of the sizes `size`, `2 * size`, `4 * size`, ... that is
/// greater than `len`.
pub open spec fn size_class(len: nat, size: nat) -> nat
    decreases short_by(len, size),
{
    if len < size || size == 0 {
        size
    } else {
        size_class(len, 2 * size)
    }
}

/// Number of elements that a list of `len` indices takes in a pool. The
/// empty list takes none. Any other list takes a block for its length and
/// its elements, and blocks come in the sizes 4, 8, 16, ...: the block is
/// the smallest that is larger than `len`.
pub open spec fn block_size(len: nat) -> nat {
    if len == 0 {
        0
    } else {
        size_class(len, 4)
    }
}

/// A size class is no smaller than the size it is looked for from, and
/// it is larger than the length.
pub proof fn lemma_size_class(len: nat, size: nat)
    requires
        size > 0,
    ensures
        size <= size_class(len, size),
        len < size_class(len, size),
    decreases short_by(len, size),
{
    if len >= size {
        lemma_size_class(len, 2 * size);
    }
}

/// Calls `ListPool::new`: no list is allocated from the new pool, and
/// nothing of its backing vector is in use.
#[verifier::external_body]
fn pool_new() -> (pool: HandlePool)
    ensures
        pool_lists(pool).dom() == Set::<int>::empty(),
        pool_extent(pool) == 0,
{
    HandlePool { pool: cranelift_entity::ListPool::new() }
}

/// Calls `ListPool::clone`: the copy holds the lists that the pool holds,
/// under the same keys.
#[verifier::external_body]
fn pool_clone(pool: &HandlePool) -> (copy: HandlePool)
    ensures
        copy == *pool,
{
    HandlePool { pool: pool.pool.clone() }
}

/// Calls `EntityList::new`: the empty list, which lives in no pool.
#[verifier::external_body]
fn list_new() -> (list: RawList)
    ensures
        list_key(list) == 0,
{
    RawList { list: cranelift_entity::EntityList::new() }
}

/// Calls `EntityList::from_slice`. An empty slice gives the empty list and
/// leaves the pool alone. Any other slice is copied into a new block at the
/// end of the pool's backing vector, which no earlier list reaches, and the
/// new list is keyed by the offset of that copy; the block has the size of
/// the slice's size class. The pool stores offsets and lengths as 32-bit
/// numbers, without a check: the block has to end below 2^32.
#[verifier::external_body]
fn list_from_slice(items: &Vec<u32>, pool: &mut HandlePool) -> (list: RawList)
    requires
        pool_extent(*old(pool)) + block_size(items@.len()) <= u32::MAX,
    ensures
        items@.len() == 0 ==> list_key(list) == 0 && *final(pool) == *old(pool),
        items@.len() > 0 ==> list_key(list) > 0 && !pool_lists(*old(pool)).contains_key(
            list_key(list),
        ) && pool_lists(*final(pool)) == pool_lists(*old(pool)).insert(list_key(list), items@),
        pool_extent(*final(pool)) == pool_extent(*old(pool)) + block_size(items@.len()),
{
    let slots: Vec<Slot> = items.iter().map(|raw| Slot(*raw)).collect();
    RawList { list: cranelift_entity::EntityList::from_slice(&slots, &mut pool.pool) }
}

/// Calls `EntityList::as_slice`: the indices of a list that was allocated
/// from `pool`, in order; the empty list holds none.
#[verifier::external_body]
fn list_items(list: RawList, pool: &HandlePool) -> (items: Vec<u32>)
    requires
        list_key(list) == 0 || pool_lists(*pool).contains_key(list_key(list)),
    ensures
        items@ == (if list_key(list) == 0 {
            Seq::<u32>::empty()
        } else {
            pool_lists(*pool)[list_key(list)]
        }),
{
    list.list.as_slice(&pool.pool).iter().map(|slot| slot.0).collect()
}

/// The handle of a list of handles of kind `E`.
#[derive(Debug, PartialEq, Eq, Hash)]
pub struct EntityList<E> {
    raw: RawList,
    kind: PhantomData<E>,
}

impl<E> Clone for EntityList<E> {
    fn clone(&self) -> (list: EntityList<E>)
        ensures
            list == *self,
    {
        EntityList { raw: self.raw, kind: PhantomData }
    }
}

impl<E> Copy for EntityList<E> {}

impl<E> EntityList<E> {
    /// The key under which the arena holds the list; 0 for the empty list.
    pub closed spec fn key(self) -> int {
        list_key(self.raw)
    }

    /// The empty list. It needs no arena.
    pub fn new() -> (list: EntityList<E>)
        ensures
            list.key() == 0,
    {
        EntityList { raw: list_new(), kind: PhantomData }
    }
}

/// An arena of nodes of type `T`, named by handles of kind `E`.
#[verifier::reject_recursive_types(E)]
#[derive(Debug)]
pub struct EntityArena<E, T> {
    map: Vec<T>,
    pool: HandlePool,
    used: usize,
    kind: PhantomData<E>,
}

/// The indices that `handles` wrap.
pub open spec fn raws<E: Handle>(handles: Seq<E>) -> Seq<u32> {
    handles.map_values(|handle: E| handle.raw())
}

/// Every index in every list is below `bound`.
pub open spec fn all_below(lists: Map<int, Seq<u32>>, bound: nat) -> bool {
    forall|key: int, i: int|
        #![trigger lists[key][i]]
        lists.contains_key(key) && 0 <= i < lists[key].len() ==> lists[key][i] < bound
}

/// Lists that stay below a bound stay below every larger bound, and so
/// does one more list whose indices are below it.
proof fn lemma_all_below(lists: Map<int, Seq<u32>>, bound: nat, more: nat, key: int, list: Seq<u32>)
    requires
        all_below(lists, bound),
        bound <= more,
        forall|i: int| 0 <= i < list.len() ==> list[i] < more,
    ensures
        all_below(lists, more),
        all_below(lists.insert(key, list), more),
{
    assert forall|k: int, i: int|
        #![trigger lists[k][i]]
        lists.contains_key(k) && 0 <= i < lists[k].len() implies lists[k][i] < more by {
        assert(lists[k][i] < bound);
    }
    let after = lists.insert(key, list);
    assert forall|k: int, i: int|
        #![trigger after[k][i]]
        after.contains_key(k) && 0 <= i < after[k].len() implies after[k][i] < more by {
        if k != key {
            assert(lists[k][i] < bound);
        }
    }
}

/// The indices of a sequence of handles with one more handle at its end.
proof fn lemma_raws_push<E: Handle>(handles: Seq<E>, handle: E)
    ensures
        raws(handles.push(handle)) == raws(handles).push(handle.raw()),
{
}

impl<E: Handle, T> EntityArena<E, T> {
    /// The nodes, each at the index that its handle wraps.
    pub closed spec fn nodes(&self) -> Seq<T> {
        self.map@
    }

    /// The lists that were inserted, by key; the empty list has key 0 and
    /// is always there.
    pub closed spec fn lists(&self) -> Map<int, Seq<u32>> {
        pool_lists(self.pool).insert(0, Seq::empty())
    }

    /// Number of pool elements that are set aside for the lists inserted
    /// so far.
    pub closed spec fn pool_used(&self) -> nat {
        self.used as nat
    }

    /// The arena is well formed: its nodes can be numbered by a handle, the
    /// pool is within its bounds, and every list holds handles of nodes.
    pub closed spec fn wf(&self) -> bool {
        &&& self.map@.len() < u32::MAX
        &&& pool_extent(self.pool) == self.used <= u32::MAX
        &&& !pool_lists(self.pool).contains_key(0)
        &&& all_below(self.lists(), self.map@.len())
    }

    /// True when `handle` names a node of this arena.
    pub open spec fn contains(&self, handle: E) -> bool {
        handle.raw() < self.nodes().len()
    }

    /// True when `list` names a list of this arena.
    pub open spec fn holds(&self, list: EntityList<E>) -> bool {
        self.lists().contains_key(list.key())
    }

    /// The indices of the nodes that `list` names, in order.
    pub open spec fn items(&self, list: EntityList<E>) -> Seq<u32> {
        self.lists()[list.key()]
    }

    /// The lists of a well-formed arena name nodes of the arena.
    pub proof fn lemma_items_contained(&self, list: EntityList<E>, i: int)
        requires
            self.wf(),
            self.holds(list),
            0 <= i < self.items(list).len(),
        ensures
            self.items(list)[i] < self.nodes().len(),
    {
        let lists = self.lists();
    }

    /// The arena is as `new` makes it: well formed, without a node, with
    /// no list but the empty one, and with nothing of its pool set aside.
    pub open spec fn holds_nothing(&self) -> bool {
        &&& self.wf()
        &&& self.nodes() == Seq::<T>::empty()
        &&& self.lists() == Map::<int, Seq<u32>>::empty().insert(0, Seq::empty())
        &&& self.pool_used() == 0
    }

    /// An arena without nodes or lists.
    pub fn new() -> (arena: EntityArena<E, T>)
        ensures
            arena.holds_nothing(),
    {
        let arena = EntityArena { map: Vec::new(), pool: pool_new(), used: 0, kind: PhantomData };
        proof {
            assert(pool_lists(arena.pool) =~= Map::<int, Seq<u32>>::empty());
        }
        arena
    }

    /// Number of nodes.
    pub fn len(&self) -> (count: usize)
        ensures
            count == self.nodes().len(),
    {
        self.map.len()
    }

    /// Number of pool elements that are set aside for lists.
    pub fn used(&self) -> (count: usize)
        ensures
            count == self.pool_used(),
    {
        self.used
    }

    /// Adds a node and hands back its handle. Handles count up from 0.
    pub fn insert(&mut self, value: T) -> (handle: E)
        requires
            old(self).wf(),
            old(self).nodes().len() + 1 < u32::MAX,
        ensures
            final(self).wf(),
            final(self).nodes() == old(self).nodes().push(value),
            final(self).lists() == old(self).lists(),
            final(self).pool_used() == old(self).pool_used(),
            handle.raw() == old(self).nodes().len(),
    {
        let index = self.map.len();
        proof {
            lemma_all_below(
                self.lists(),
                self.map@.len(),
                self.map@.len() + 1,
                0,
                Seq::empty(),
            );
        }
        self.map.push(value);
        E::from_raw(index as u32)
    }

    /// Adds the nodes in order, as so many calls of `insert` do, and hands
    /// back their handles in the same order: each handle finds its node.
    pub fn insert_all(&mut self, values: Vec<T>) -> (handles: Vec<E>)
        requires
            old(self).wf(),
            old(self).nodes().len() + values@.len() < u32::MAX,
        ensures
            final(self).wf(),
            final(self).nodes() == inserted(old(self).nodes(), values@),
            final(self).nodes() == old(self).nodes() + values@,
            final(self).lists() == old(self).lists(),
            final(self).pool_used() == old(self).pool_used(),
            handles@.len() == values@.len(),
            forall|i: int|
                0 <= i < handles@.len() ==> (#[trigger] handles@[i]).raw() == issued(
                    old(self).nodes(),
                    values@,
                    i,
                ),
            forall|i: int|
                0 <= i < handles@.len() ==> final(self).nodes()[(#[trigger] handles@[i]).raw() as int]
                    == values@[i],
    {
        let ghost all = values@;
        let mut values = values;
        let mut stack: Vec<T> = Vec::new();
        while values.len() > 0
            invariant
                values@ + stack@.reverse() =~= all,
            decreases values@.len(),
        {
            let ghost before = values@;
            let value = values.pop().unwrap();
            proof {
                assert(stack@.push(value).reverse() =~= seq![value] + stack@.reverse());
                assert(before =~= values@ + seq![value]);
            }
            stack.push(value);
        }
        let mut handles: Vec<E> = Vec::new();
        proof {
            assert(stack@.reverse() =~= all);
            assert(all.take(0) =~= Seq::<T>::empty());
        }
        while stack.len() > 0
            invariant
                self.wf(),
                self.lists() == old(self).lists(),
                self.pool_used() == old(self).pool_used(),
                handles@.len() + stack@.len() == all.len(),
                stack@.reverse() =~= all.skip(handles@.len() as int),
                self.nodes() =~= old(self).nodes() + all.take(handles@.len() as int),
                old(self).nodes().len() + all.len() < u32::MAX,
                forall|i: int|
                    0 <= i < handles@.len() ==> (#[trigger] handles@[i]).raw() == old(
                        self,
                    ).nodes().len() + i,
            decreases stack@.len(),
        {
            let ghost done = handles@.len() as int;
            let ghost rest = stack@;
            let value = stack.pop().unwrap();
            proof {
                assert(rest.reverse()[0] == rest[rest.len() - 1]);
                assert(value == all[done]);
                assert(stack@.reverse() =~= rest.reverse().skip(1));
                assert(all.skip(done).skip(1) =~= all.skip(done + 1));
                assert(all.take(done + 1) =~= all.take(done).push(all[done]));
            }
            let handle = self.insert(value);
            handles.push(handle);
        }
        proof {
            assert(all.take(all.len() as int) =~= all);
            lemma_inserted(old(self).nodes(), all);
            assert forall|i: int| 0 <= i < handles@.len() implies (#[trigger] handles@[i]).raw()
                == issued(old(self).nodes(), all, i) by {
                lemma_inserted(old(self).nodes(), all.take(i));
            }
        }
        handles
    }

    /// The node that `handle` names.
    pub fn get(&self, handle: E) -> (node: &T)
        requires
            self.contains(handle),
        ensures
            *node == self.nodes()[handle.raw() as int],
    {
        &self.map[handle.to_raw() as usize]
    }

    /// True when the pool has room for one more list of `len` handles:
    /// when `insert_list` takes such a list.
    pub fn has_room(&self, len: usize) -> (fits: bool)
        ensures
            fits == (self.pool_used() + block_size(len as nat) <= u32::MAX),
    {
        if len == 0 {
            return self.used <= 0xffff_ffff;
        }
        if len >= 0xffff_ffff {
            proof {
                lemma_size_class(len as nat, 4);
            }
            return false;
        }
        let mut size: u64 = 4;
        while size <= len as u64
            invariant
                4 <= size <= 0x2_0000_0000,
                len < 0xffff_ffff,
                size_class(len as nat, size as nat) == block_size(len as nat),
            decreases short_by(len as nat, size as nat),
        {
            size = 2 * size;
        }
        size <= 0xffff_ffff && self.used as u64 <= 0xffff_ffff - size
    }

    /// Number of pool elements that a list of `len` handles takes.
    fn block_size_of(len: usize) -> (size: usize)
        requires
            block_size(len as nat) <= u32::MAX,
        ensures
            size == block_size(len as nat),
    {
        if len == 0 {
            return 0;
        }
        let mut size: usize = 4;
        while size <= len
            invariant
                size >= 4,
                size_class(len as nat, size as nat) == block_size(len as nat),
                block_size(len as nat) <= u32::MAX,
            decreases short_by(len as nat, size as nat),
        {
            proof {
                lemma_size_class(len as nat, (2 * size) as nat);
            }
            size = 2 * size;
        }
        size
    }

    /// Stores a list of handles and hands back the handle of the list.
    pub fn insert_list(&mut self, handles: &[E]) -> (list: EntityList<E>)
        requires
            old(self).wf(),
            forall|i: int| 0 <= i < handles@.len() ==> old(self).contains(#[trigger] handles@[i]),
            old(self).pool_used() + block_size(handles@.len()) <= u32::MAX,
        ensures
            final(self).wf(),
            final(self).nodes() == old(self).nodes(),
            final(self).holds(list),
            final(self).items(list) == raws(handles@),
            final(self).items(list).len() == handles@.len(),
            forall|i: int|
                0 <= i < handles@.len() ==> final(self).items(list)[i] == (
                #[trigger] handles@[i]).raw(),
            handles@.len() == 0 <==> list.key() == 0,
            handles@.len() > 0 ==> !old(self).holds(list),
            final(self).lists() == old(self).lists().insert(list.key(), raws(handles@)),
            final(self).pool_used() == old(self).pool_used() + block_size(handles@.len()),
    {
        let mut items: Vec<u32> = Vec::new();
        let mut i: usize = 0;
        while i < handles.len()
            invariant
                i <= handles@.len(),
                items@ == raws(handles@.take(i as int)),
            decreases handles@.len() - i,
        {
            items.push(handles[i].to_raw());
            proof {
                assert(handles@.take(i + 1) =~= handles@.take(i as int).push(handles@[i as int]));
                lemma_raws_push(handles@.take(i as int), handles@[i as int]);
            }
            i = i + 1;
        }
        proof {
            assert(handles@.take(handles@.len() as int) =~= handles@);
        }
        let raw = list_from_slice(&items, &mut self.pool);
        self.used = self.used + Self::block_size_of(handles.len());
        let list = EntityList { raw, kind: PhantomData };
        proof {
            assert forall|i: int| 0 <= i < raws(handles@).len() implies raws(handles@)[i]
                < self.map@.len() by {
                assert(old(self).contains(handles@[i]));
            }
            lemma_all_below(
                old(self).lists(),
                self.map@.len(),
                self.map@.len(),
                list.key(),
                raws(handles@),
            );
            if handles@.len() == 0 {
                assert(raws(handles@) =~= Seq::<u32>::empty());
                assert(self.lists() =~= old(self).lists().insert(0, raws(handles@)));
            } else {
                assert(self.lists() =~= old(self).lists().insert(list.key(), raws(handles@)));
            }
        }
        list
    }

    /// The handles that `list` holds, in the order in which they were
    /// given.
    pub fn list(&self, list: EntityList<E>) -> (handles: Vec<E>)
        requires
            self.wf(),
            self.holds(list),
        ensures
            raws(handles@) == self.items(list),
            handles@.len() == self.items(list).len(),
            forall|i: int|
                0 <= i < handles@.len() ==> (#[trigger] handles@[i]).raw() == self.items(list)[i],
            forall|i: int| 0 <= i < handles@.len() ==> self.contains(#[trigger] handles@[i]),
    {
        let items = list_items(list.raw, &self.pool);
        let mut handles: Vec<E> = Vec::new();
        let mut i: usize = 0;
        while i < items.len()
            invariant
                i <= items@.len(),
                raws(handles@) == items@.take(i as int),
            decreases items@.len() - i,
        {
            let handle = E::from_raw(items[i]);
            proof {
                lemma_raws_push(handles@, handle);
                assert(items@.take(i + 1) =~= items@.take(i as int).push(items@[i as int]));
            }
            handles.push(handle);
            i = i + 1;
        }
        proof {
            assert(items@.take(items@.len() as int) =~= items@);
            assert forall|i: int| 0 <= i < handles@.len() implies (#[trigger] handles@[i]).raw()
                == self.items(list)[i] && self.contains(handles@[i]) by {
                assert(raws(handles@)[i] == handles@[i].raw());
                self.lemma_items_contained(list, i);
            }
        }
        handles
    }
}

impl<E: Handle, T> vstd::std_specs::core::IndexSpecImpl<E> for EntityArena<E, T> {
    open spec fn index_req(&self, index: &E) -> bool {
        self.contains(*index)
    }
}

/// `arena[handle]` is the node that `handle` names.
impl<E: Handle, T> Index<E> for EntityArena<E, T> {
    type Output = T;

    fn index(&self, index: E) -> (node: &T)
        ensures
            *node == self.nodes()[index.raw() as int],
    {
        self.get(index)
    }
}

impl<E: Handle, T: Spanned> EntityArena<E, T> {
    /// The span of the node at index `raw`.
    pub open spec fn span_at(&self, raw: u32) -> Span {
        self.nodes()[raw as int].spanned()
    }

    /// The spans of the nodes at `indices`, in order.
    pub open spec fn spans_at(&self, indices: Seq<u32>) -> Seq<Span> {
        indices.map_values(|raw: u32| self.span_at(raw))
    }

    /// The span of the node that `handle` names.
    pub fn span_of(&self, handle: E) -> (span: Span)
        requires
            self.contains(handle),
        ensures
            span == self.span_at(handle.raw()),
    {
        self.get(handle).span()
    }

    /// The union of the spans of the nodes that `list` names, or `fallback`
    /// where the list is empty.
    pub fn list_span(&self, list: EntityList<E>, fallback: Span) -> (span: Span)
        requires
            self.wf(),
            self.holds(list),
        ensures
            span == union_all(self.spans_at(self.items(list)), fallback),
    {
        let handles = self.list(list);
        let mut spans: Vec<Span> = Vec::new();
        let mut i: usize = 0;
        while i < handles.len()
            invariant
                i <= handles@.len(),
                raws(handles@) == self.items(list),
                forall|j: int| 0 <= j < handles@.len() ==> self.contains(#[trigger] handles@[j]),
                spans@ == self.spans_at(self.items(list).take(i as int)),
            decreases handles@.len() - i,
        {
            let span = self.span_of(handles[i]);
            proof {
                let items = self.items(list);
                assert(items[i as int] == handles@[i as int].raw());
                assert(self.spans_at(items.take(i + 1)) =~= self.spans_at(
                    items.take(i as int),
                ).push(span));
            }
            spans.push(span);
            i = i + 1;
        }
        proof {
            let items = self.items(list);
            assert(items.take(items.len() as int) =~= items);
        }
        union_of(&spans, fallback)
    }
}

impl<E: Handle, T: Clone> Clone for EntityArena<E, T> {
    /// An arena with a clone of each node, under the same handle, and with
    /// the same lists.
    fn clone(&self) -> (arena: EntityArena<E, T>)
        ensures
            arena.nodes().len() == self.nodes().len(),
            forall|i: int|
                0 <= i < self.nodes().len() ==> cloned::<T>(
                    #[trigger] self.nodes()[i],
                    arena.nodes()[i],
                ),
            arena.lists() == self.lists(),
            arena.pool_used() == self.pool_used(),
            self.wf() ==> arena.wf(),
    {
        EntityArena {
            map: self.map.clone(),
            pool: pool_clone(&self.pool),
            used: self.used,
            kind: PhantomData,
        }
    }
}

impl<E: Handle, T> Default for EntityArena<E, T> {
    /// An arena without nodes or lists, as `new` makes it.
    fn default() -> (arena: EntityArena<E, T>)
        ensures
            arena.holds_nothing(),
    {
        EntityArena::new()
    }
}

/// The nodes of an arena after `values` were inserted one after another.
pub open spec fn inserted<T>(nodes: Seq<T>, values: Seq<T>) -> Seq<T>
    decreases values.len(),
{
    if values.len() == 0 {
        nodes
    } else {
        inserted(nodes, values.drop_last()).push(values.last())
    }
}

/// The index of the handle that is given at step `i`, when `values` are
/// inserted one after another: the number of nodes that are there before
/// that step.
pub open spec fn issued<T>(nodes: Seq<T>, values: Seq<T>, i: int) -> int {
    inserted(nodes, values.take(i)).len() as int
}

/// Handles are stable. When any number of nodes is inserted one after
/// another, in any order of values, the handle given at step `i` finds the
/// node that was inserted at that step; the handles of two steps differ; a
/// node that is inserted later changes none of this; and every node that
/// was in the arena before is found where it was.
pub proof fn lemma_handles_stable<T>(nodes: Seq<T>, values: Seq<T>, i: int, j: int, later: T)
    requires
        0 <= i < values.len(),
        0 <= j < values.len(),
    ensures
        issued(nodes, values, i) == nodes.len() + i,
        inserted(nodes, values).len() == nodes.len() + values.len(),
        inserted(nodes, values)[issued(nodes, values, i)] == values[i],
        i != j ==> issued(nodes, values, i) != issued(nodes, values, j),
        inserted(nodes, values.push(later))[issued(nodes, values, i)] == values[i],
        issued(nodes, values.push(later), i) == issued(nodes, values, i),
        forall|k: int| 0 <= k < nodes.len() ==> inserted(nodes, values)[k] == nodes[k],
{
    lemma_inserted(nodes, values);
    lemma_inserted(nodes, values.take(i));
    lemma_inserted(nodes, values.take(j));
    lemma_inserted(nodes, values.push(later));
    assert(values.push(later).take(i) =~= values.take(i));
    assert((nodes + values)[nodes.len() + i] == values[i]);
    assert((nodes + values.push(later))[nodes.len() + i] == values[i]);
}

/// Inserting values one after another appends them in order.
proof fn lemma_inserted<T>(nodes: Seq<T>, values: Seq<T>)
    ensures
        inserted(nodes, values) == nodes + values,
    decreases values.len(),
{
    if values.len() > 0 {
        lemma_inserted(nodes, values.drop_last());
        assert((nodes + values.drop_last()).push(values.last()) =~= nodes + values);
    }
}

} // verus!
