//! A generational-index arena.
//!
//! A `MonoHeap<T>` owns a growable block of slots and hands out copyable
//! [`Token`]s instead of references.  Each slot carries an allocation number
//! that is bumped every time the slot is put back into use, so a token issued
//! for an earlier occupation of a slot can never validate against a later one.

use vstd::assert_seqs_equal;
use vstd::prelude::*;

verus! {

/// A copyable handle into a [`MonoHeap`]: the index of a slot together with
/// the allocation number the slot had when the token was issued.
///
/// A token is meaningful only for the heap that issued it; tokens compare by
/// value and carry no ownership.
#[derive(Clone, Copy, PartialEq, Eq, Structural)]
pub struct Token {
    spot: usize,
    alloc_number: u32,
}

impl Token {
    /// The slot index this token refers to.
    pub closed spec fn spot(self) -> int {
        self.spot as int
    }

    /// The allocation number the slot had when this token was issued.
    pub closed spec fn alloc_number(self) -> u32 {
        self.alloc_number
    }
}

/// The specification-level picture of one storage slot: its allocation number
/// and its payload, if the slot is occupied.
pub struct SlotModel<T> {
    pub alloc_number: u32,
    pub data: Option<T>,
}

/// One storage cell of a [`MonoHeap`].
struct AllocCell<T> {
    data: Option<T>,
    alloc_number: u32,
}

/// A growing arena of slots, addressed through validity-checked [`Token`]s.
///
/// Storage only grows: slots are never removed, only marked free and recycled,
/// so the index behind a live token never moves.
pub struct MonoHeap<T> {
    block: Vec<AllocCell<T>>,
}

impl<T> View for MonoHeap<T> {
    type V = Seq<SlotModel<T>>;

    closed spec fn view(&self) -> Seq<SlotModel<T>> {
        self.block@.map_values(
            |cell: AllocCell<T>| SlotModel { alloc_number: cell.alloc_number, data: cell.data },
        )
    }
}

/// A token is valid for a sequence of slots when its index is in range, the
/// slot still carries the allocation number the token was issued with, and the
/// slot is currently occupied.
pub open spec fn token_valid<T>(slots: Seq<SlotModel<T>>, token: Token) -> bool {
    &&& token.spot() < slots.len()
    &&& slots[token.spot()].alloc_number == token.alloc_number()
    &&& slots[token.spot()].data is Some
}

/// What a token reads: the payload of its slot when the token is valid,
/// absent otherwise.
pub open spec fn token_read<T>(slots: Seq<SlotModel<T>>, token: Token) -> Option<T> {
    if token_valid(slots, token) {
        slots[token.spot()].data
    } else {
        None
    }
}

/// The lowest reusable slot index at or after `from`: the first slot that is
/// free and whose allocation number can still be bumped.  Slots whose counter
/// has reached `u32::MAX` are retired rather than recycled, so the counter
/// never wraps and old tokens can never alias a later occupation.
pub open spec fn first_reusable<T>(slots: Seq<SlotModel<T>>, from: int) -> Option<int>
    decreases slots.len() - from,
{
    if from < 0 || from >= slots.len() {
        None
    } else if slots[from].data is None && slots[from].alloc_number < u32::MAX {
        Some(from)
    } else {
        first_reusable(slots, from + 1)
    }
}

/// How one `remove` call changes the heap: a valid token frees its slot and
/// reports success; any other token leaves the heap untouched and reports
/// failure.  The allocation number stays as it is; it is bumped on the slot's
/// next occupation, not on removal.
pub open spec fn remove_transition<T>(
    pre: Seq<SlotModel<T>>,
    post: Seq<SlotModel<T>>,
    token: Token,
    removed: bool,
) -> bool {
    &&& removed == token_valid(pre, token)
    &&& post == if removed {
        pre.update(
            token.spot(),
            SlotModel { alloc_number: pre[token.spot()].alloc_number, data: None },
        )
    } else {
        pre
    }
}

/// Where `first_reusable` points when it finds a slot, and that every slot
/// before that one (or every slot at all, when it finds none) cannot be
/// reused.
pub proof fn lemma_first_reusable_props<T>(slots: Seq<SlotModel<T>>, from: int)
    requires
        0 <= from,
    ensures
        match first_reusable(slots, from) {
            Some(i) => {
                &&& from <= i < slots.len()
                &&& slots[i].data is None
                &&& slots[i].alloc_number < u32::MAX
                &&& forall|j: int|
                    from <= j < i ==> !(#[trigger] slots[j].data is None
                        && slots[j].alloc_number < u32::MAX)
            },
            None => forall|j: int|
                from <= j < slots.len() ==> !(#[trigger] slots[j].data is None
                    && slots[j].alloc_number < u32::MAX),
        },
    decreases slots.len() - from,
{
    if from < 0 || from >= slots.len() {
    } else if slots[from].data is None && slots[from].alloc_number < u32::MAX {
    } else {
        lemma_first_reusable_props(slots, from + 1);
    }
}

/// How one `insert` call changes the heap: the first reusable slot is
/// re-occupied with its allocation number bumped, or, when there is none, a
/// fresh slot is appended at allocation number 0.  The returned token names
/// exactly that occupation.
pub open spec fn insert_transition<T>(
    pre: Seq<SlotModel<T>>,
    post: Seq<SlotModel<T>>,
    token: Token,
    value: T,
) -> bool {
    match first_reusable(pre, 0) {
        Some(i) => {
            &&& token.spot() == i
            &&& token.alloc_number() == pre[i].alloc_number + 1
            &&& post == pre.update(
                i,
                SlotModel { alloc_number: (pre[i].alloc_number + 1) as u32, data: Some(value) },
            )
        },
        None => {
            &&& token.spot() == pre.len()
            &&& token.alloc_number() == 0
            &&& post == pre.push(SlotModel { alloc_number: 0, data: Some(value) })
        },
    }
}

impl<T> MonoHeap<T> {
    /// Creates an empty heap.
    pub fn new() -> (heap: Self)
        ensures
            heap@ == Seq::<SlotModel<T>>::empty(),
    {
        let heap = Self { block: Vec::new() };
        proof {
            assert(heap@ =~= Seq::<SlotModel<T>>::empty());
        }
        heap
    }

    /// Creates an empty heap whose storage is pre-sized for `capacity` slots.
    /// The hint changes only allocation timing, never observable behaviour.
    pub fn with_capacity(capacity: usize) -> (heap: Self)
        ensures
            heap@ == Seq::<SlotModel<T>>::empty(),
    {
        let heap = Self { block: Vec::with_capacity(capacity) };
        proof {
            assert(heap@ =~= Seq::<SlotModel<T>>::empty());
        }
        heap
    }

    /// Stores `value` in the heap and returns the token for this occupation.
    ///
    /// The first reusable slot is re-occupied (its allocation number bumped),
    /// or a fresh slot is appended when no slot can be reused.  Always
    /// succeeds; growth never moves existing slots, so tokens issued earlier
    /// keep their meaning.
    pub fn insert(&mut self, value: T) -> (token: Token)
        ensures
            insert_transition(old(self)@, final(self)@, token, value),
            token_valid(final(self)@, token),
            token_read(final(self)@, token) == Some(value),
    {
        let token = self.reserve();
        let ghost s1 = self@;
        self.block[token.spot].data = Some(value);
        proof {
            let s0 = old(self)@;
            lemma_first_reusable_props(s0, 0);
            match first_reusable(s0, 0) {
                Some(i) => {
                    assert_seqs_equal!(
                        self@ == s0.update(
                            i,
                            SlotModel { alloc_number: token.alloc_number, data: Some(value) },
                        ),
                        j => {
                            if j != i {
                                assert(self@[j] == s1[j]);
                            }
                        }
                    );
                },
                None => {
                    assert_seqs_equal!(
                        self@ == s0.push(SlotModel { alloc_number: 0, data: Some(value) }),
                        j => {
                            if j != token.spot() {
                                assert(self@[j] == s1[j]);
                            }
                        }
                    );
                },
            }
        }
        token
    }

    /// Claims the slot for the next occupation: re-uses the first reusable
    /// slot, bumping its allocation number, or appends a fresh slot at
    /// allocation number 0.  The claimed slot is left free; the caller stores
    /// the payload.
    fn reserve(&mut self) -> (token: Token)
        ensures
            token.spot() < final(self)@.len(),
            final(self)@[token.spot()].alloc_number == token.alloc_number(),
            final(self)@[token.spot()].data is None,
            match first_reusable(old(self)@, 0) {
                Some(i) => {
                    &&& token.spot() == i
                    &&& token.alloc_number() == old(self)@[i].alloc_number + 1
                    &&& final(self)@ == old(self)@.update(
                        i,
                        SlotModel { alloc_number: token.alloc_number(), data: None },
                    )
                },
                None => {
                    &&& token.spot() == old(self)@.len()
                    &&& token.alloc_number() == 0
                    &&& final(self)@ == old(self)@.push(
                        SlotModel { alloc_number: 0, data: None },
                    )
                },
            },
    {
        let n = self.block.len();
        let mut i: usize = 0;
        while i < n
            invariant
                *self == *old(self),
                i <= n,
                n == self.block@.len(),
                first_reusable(self@, 0) == first_reusable(self@, i as int),
            decreases n - i,
        {
            if self.block[i].data.is_none() && self.block[i].alloc_number < u32::MAX {
                let bumped = self.block[i].alloc_number + 1;
                proof {
                    assert(first_reusable(old(self)@, i as int) == Some(i as int));
                }
                self.block[i].alloc_number = bumped;
                proof {
                    assert(self@ =~= old(self)@.update(
                        i as int,
                        SlotModel { alloc_number: bumped, data: None },
                    ));
                }
                return Token { spot: i, alloc_number: bumped };
            }
            proof {
                assert(first_reusable(self@, i as int) == first_reusable(self@, i + 1));
            }
            i = i + 1;
        }
        proof {
            assert(first_reusable(self@, n as int) is None);
        }
        self.block.push(AllocCell { data: None, alloc_number: 0 });
        proof {
            assert(self@ =~= old(self)@.push(SlotModel { alloc_number: 0, data: None }));
        }
        Token { spot: n, alloc_number: 0 }
    }

    /// Frees the slot behind `token` if the token is currently valid and
    /// reports whether anything was removed.  A stale, foreign or
    /// out-of-range token leaves the heap untouched; removing the same token
    /// twice reports `false` the second time.
    pub fn remove(&mut self, token: Token) -> (removed: bool)
        ensures
            remove_transition(old(self)@, final(self)@, token, removed),
    {
        if !self.is_token_valid(token) {
            false
        } else {
            self.block[token.spot].data = None;
            proof {
                assert_seqs_equal!(
                    self@ == old(self)@.update(
                        token.spot(),
                        SlotModel {
                            alloc_number: old(self)@[token.spot()].alloc_number,
                            data: None,
                        },
                    )
                );
            }
            true
        }
    }

    /// Returns a read-only reference to the value behind `token`, or `None`
    /// when the token is not currently valid.
    pub fn get(&self, token: Token) -> (result: Option<&T>)
        ensures
            match result {
                Some(value) => token_read(self@, token) == Some(*value),
                None => token_read(self@, token) is None,
            },
    {
        if !self.is_token_valid(token) {
            None
        } else {
            match &self.block[token.spot].data {
                Some(value) => Some(value),
                None => None,
            }
        }
    }

    /// Returns a mutable reference to the value behind `token`, or `None`
    /// when the token is not currently valid.  Whatever the caller writes
    /// through the reference becomes the slot's payload; nothing else about
    /// the heap changes.
    pub fn get_mut(&mut self, token: Token) -> (result: Option<&mut T>)
        ensures
            match result {
                Some(value) => {
                    &&& token_valid(old(self)@, token)
                    &&& *value == old(self)@[token.spot()].data.unwrap()
                    &&& final(self)@.len() == old(self)@.len()
                    &&& forall|j: int|
                        0 <= j < old(self)@.len() && j != token.spot()
                            ==> #[trigger] final(self)@[j] == old(self)@[j]
                    &&& final(self)@[token.spot()] == SlotModel {
                        alloc_number: old(self)@[token.spot()].alloc_number,
                        data: Some(*final(value)),
                    }
                },
                None => {
                    &&& !token_valid(old(self)@, token)
                    &&& final(self)@ == old(self)@
                },
            },
    {
        if !self.is_token_valid(token) {
            return None;
        }
        match &mut self.block[token.spot].data {
            Some(value) => Some(value),
            None => None,
        }
    }

    /// Reports whether `token` currently refers to an occupied slot of this
    /// heap: the three-part check of index range, allocation number and
    /// occupancy.
    pub fn is_token_valid(&self, token: Token) -> (valid: bool)
        ensures
            valid == token_valid(self@, token),
    {
        token.spot < self.block.len() && self.block[token.spot].alloc_number == token.alloc_number
            && self.block[token.spot].data.is_some()
    }
}

/// The lowest occupied slot index at or after `from`, if any: the next slot
/// an iteration step will yield.
pub open spec fn first_live<T>(slots: Seq<SlotModel<T>>, from: int) -> Option<int>
    decreases slots.len() - from,
{
    if from < 0 || from >= slots.len() {
        None
    } else if slots[from].data is Some {
        Some(from)
    } else {
        first_live(slots, from + 1)
    }
}

/// A restartable walk over the occupied slots of a [`MonoHeap`], in
/// increasing index order.  It borrows the heap, so the heap cannot be
/// mutated while the iteration is live.
pub struct MonoHeapIterator<'a, T> {
    heap: &'a MonoHeap<T>,
    idx: usize,
}

impl<'a, T> MonoHeapIterator<'a, T> {
    /// The slots of the heap this iterator walks.
    pub closed spec fn slots(self) -> Seq<SlotModel<T>> {
        self.heap@
    }

    /// The index the next step starts scanning from.
    pub closed spec fn pos(self) -> int {
        self.idx as int
    }

    /// Yields a reference to the payload of the next occupied slot at or
    /// after the current position, advancing just past it; yields `None`, and
    /// parks the position at the end of storage, once no occupied slot is
    /// left.
    pub fn next(&mut self) -> (result: Option<&'a T>)
        ensures
            final(self).slots() == old(self).slots(),
            match first_live(old(self).slots(), old(self).pos()) {
                Some(i) => {
                    &&& result matches Some(value) && old(self).slots()[i].data == Some(*value)
                    &&& final(self).pos() == i + 1
                },
                None => {
                    &&& result is None
                    &&& final(self).pos() == if old(self).pos() >= old(self).slots().len() {
                        old(self).pos()
                    } else {
                        old(self).slots().len() as int
                    }
                },
            },
    {
        let heap = self.heap;
        while self.idx < heap.block.len()
            invariant
                self.heap == heap,
                heap == old(self).heap,
                old(self).pos() <= self.pos(),
                self.pos() <= heap@.len() || self.pos() == old(self).pos(),
                first_live(heap@, old(self).pos()) == first_live(heap@, self.pos()),
            decreases heap@.len() - self.pos(),
        {
            let i = self.idx;
            self.idx = i + 1;
            if let Some(value) = &heap.block[i].data {
                proof {
                    assert(first_live(heap@, i as int) == Some(i as int));
                }
                return Some(value);
            }
            proof {
                assert(first_live(heap@, i as int) == first_live(heap@, i + 1));
            }
        }
        proof {
            assert(first_live(heap@, self.pos()) is None);
        }
        None
    }
}

impl<T> MonoHeap<T> {
    /// Starts a walk over the currently occupied slots, from the lowest
    /// index.
    pub fn iter<'a>(&'a self) -> (it: MonoHeapIterator<'a, T>)
        ensures
            it.slots() == self@,
            it.pos() == 0,
    {
        MonoHeapIterator { heap: self, idx: 0 }
    }
}

/// Round trip: immediately after an insert, the returned token is valid and
/// reads back exactly the value that was inserted.
pub proof fn lemma_insert_round_trip<T>(
    pre: Seq<SlotModel<T>>,
    post: Seq<SlotModel<T>>,
    token: Token,
    value: T,
)
    requires
        insert_transition(pre, post, token, value),
    ensures
        token_valid(post, token),
        token_read(post, token) == Some(value),
{
    lemma_first_reusable_props(pre, 0);
}

/// An insert, whether it re-uses a free slot or grows storage, preserves the
/// validity and the read value of every token that was valid before it.
pub proof fn lemma_insert_preserves_tokens<T>(
    pre: Seq<SlotModel<T>>,
    post: Seq<SlotModel<T>>,
    token: Token,
    value: T,
    prior: Token,
)
    requires
        insert_transition(pre, post, token, value),
        token_valid(pre, prior),
    ensures
        token_valid(post, prior),
        token_read(post, prior) == token_read(pre, prior),
{
    lemma_first_reusable_props(pre, 0);
}

/// After a successful removal the token is invalid: it reads absent, and a
/// second removal of the same token reports `false` and changes nothing.
pub proof fn lemma_remove_invalidates<T>(
    pre: Seq<SlotModel<T>>,
    mid: Seq<SlotModel<T>>,
    post: Seq<SlotModel<T>>,
    token: Token,
    removed_again: bool,
)
    requires
        remove_transition(pre, mid, token, true),
        remove_transition(mid, post, token, removed_again),
    ensures
        !token_valid(mid, token),
        token_read(mid, token) is None,
        removed_again == false,
        post == mid,
{
}

/// Generation non-aliasing: insert a value, remove it again, then insert
/// another value.  The second insert may re-use the first one's slot index,
/// but the first token never validates against the new occupation — it reads
/// absent, never the new value.
pub proof fn lemma_generation_non_aliasing<T>(
    s0: Seq<SlotModel<T>>,
    s1: Seq<SlotModel<T>>,
    s2: Seq<SlotModel<T>>,
    s3: Seq<SlotModel<T>>,
    first_token: Token,
    second_token: Token,
    first_value: T,
    second_value: T,
)
    requires
        insert_transition(s0, s1, first_token, first_value),
        remove_transition(s1, s2, first_token, true),
        insert_transition(s2, s3, second_token, second_value),
    ensures
        !token_valid(s3, first_token),
        token_read(s3, first_token) is None,
        token_read(s3, second_token) == Some(second_value),
{
    lemma_first_reusable_props(s0, 0);
    lemma_first_reusable_props(s2, 0);
}

/// A token whose index lies outside the current storage is invalid and reads
/// absent, whatever its allocation number.
pub proof fn lemma_out_of_range_invalid<T>(slots: Seq<SlotModel<T>>, token: Token)
    requires
        token.spot() >= slots.len(),
    ensures
        !token_valid(slots, token),
        token_read(slots, token) is None,
{
}

} // verus!
