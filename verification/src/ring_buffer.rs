//! Fixed-capacity circular sample storage with separate read and write
//! cursors.  Both cursors wrap modulo the capacity on every advancing
//! operation; the stored length never changes after construction.

use vstd::prelude::*;

verus! {

use crate::errors::WahwahError;
use crate::fixed::{UNIT, div_trunc, div_unit, lemma_mul_abs_bound, lemma_div_trunc_bound,
    lemma_div_trunc_exact};

/// Largest slot magnitude the fractional read accepts; keeps the
/// interpolation arithmetic inside a 64-bit machine word.
pub const SLOT_LIMIT: i64 = 1_000_000_000_000;

pub struct RingBuffer<T> {
    length: usize,
    buffer: Vec<T>,
    write_pointer: usize,
    read_pointer: usize,
}

impl<T: Copy + Default> View for RingBuffer<T> {
    type V = Seq<T>;

    /// The stored slots, in underlying order (not rotated by the cursors).
    closed spec fn view(&self) -> Seq<T> {
        self.buffer@
    }
}

impl<T: Copy + Default> RingBuffer<T> {
    /// Capacity fixed at construction.
    pub closed spec fn spec_capacity(&self) -> int {
        self.length as int
    }

    /// Current read cursor.
    pub closed spec fn read_index(&self) -> int {
        self.read_pointer as int
    }

    /// Current write cursor.
    pub closed spec fn write_index(&self) -> int {
        self.write_pointer as int
    }

    /// Structural validity: the slot vector matches the capacity and both
    /// cursors lie inside it.
    pub open spec fn wf(&self) -> bool {
        &&& self@.len() == self.spec_capacity()
        &&& self.spec_capacity() >= 1
        &&& 0 <= self.read_index() < self.spec_capacity()
        &&& 0 <= self.write_index() < self.spec_capacity()
    }

    /// Fresh buffer of `length` default-valued slots, cursors at zero.
    pub fn new(length: usize) -> (result: Self)
        requires
            length >= 1,
        ensures
            result.wf(),
            result.spec_capacity() == length,
            result.read_index() == 0,
            result.write_index() == 0,
            result@.len() == length,
            forall|i: int|
                0 <= i < length ==> call_ensures(T::default, (), #[trigger] result@[i]),
    {
        let mut buffer: Vec<T> = Vec::new();
        let mut i: usize = 0;
        while i < length
            invariant
                i <= length,
                buffer@.len() == i,
                forall|k: int| 0 <= k < i ==> call_ensures(T::default, (), #[trigger] buffer@[k]),
            decreases length - i,
        {
            buffer.push(T::default());
            i += 1;
        }
        RingBuffer { length, buffer, write_pointer: 0, read_pointer: 0 }
    }

    /// Zero both cursors; the stored values stay untouched.
    pub fn reset(&mut self)
        requires
            old(self).wf(),
        ensures
            final(self).wf(),
            final(self)@ == old(self)@,
            final(self).spec_capacity() == old(self).spec_capacity(),
            final(self).read_index() == 0,
            final(self).write_index() == 0,
    {
        self.write_pointer = 0;
        self.read_pointer = 0;
    }

    /// Overwrite the slot under the write cursor without advancing it.
    pub fn put(&mut self, value: T)
        requires
            old(self).wf(),
        ensures
            final(self).wf(),
            final(self)@ == old(self)@.update(old(self).write_index(), value),
            final(self).spec_capacity() == old(self).spec_capacity(),
            final(self).read_index() == old(self).read_index(),
            final(self).write_index() == old(self).write_index(),
    {
        let i = self.write_pointer;
        self.buffer.set(i, value);
    }

    /// Read the slot under the read cursor without advancing it.
    pub fn peek(&self) -> (result: T)
        requires
            self.wf(),
        ensures
            result == self@[self.read_index()],
    {
        self.buffer[self.read_pointer]
    }

    /// Read the raw slot at `offset`; no wrapping is applied, so the
    /// caller must keep the offset inside the capacity.
    pub fn get(&self, offset: usize) -> (result: T)
        requires
            self.wf(),
            offset < self.spec_capacity(),
        ensures
            result == self@[offset as int],
    {
        self.buffer[offset]
    }

    /// Read the slot at `offset` with the offset validated instead of
    /// trusted: one at or past the capacity is reported, never wrapped.
    pub fn checked_get(&self, offset: usize) -> (result: Result<T, WahwahError>)
        requires
            self.wf(),
        ensures
            offset < self.spec_capacity() ==> (result matches Ok(v) && v == self@[offset as int]),
            offset >= self.spec_capacity() ==> result == Err::<T, WahwahError>(
                WahwahError::InvalidBufferAccess,
            ),
    {
        if offset < self.length {
            Ok(self.buffer[offset])
        } else {
            Err(WahwahError::InvalidBufferAccess)
        }
    }

    /// Store `value` under the write cursor, then advance the cursor by
    /// one slot, wrapping at the capacity.
    pub fn push(&mut self, value: T)
        requires
            old(self).wf(),
        ensures
            final(self).wf(),
            final(self)@ == old(self)@.update(old(self).write_index(), value),
            final(self).spec_capacity() == old(self).spec_capacity(),
            final(self).read_index() == old(self).read_index(),
            final(self).write_index() == (old(self).write_index() + 1) % old(self).spec_capacity(),
    {
        let i = self.write_pointer;
        self.buffer.set(i, value);
        self.write_pointer = (self.write_pointer + 1) % self.length;
    }

    /// Read the slot under the read cursor, then advance the cursor by
    /// one slot, wrapping at the capacity.
    pub fn pop(&mut self) -> (result: T)
        requires
            old(self).wf(),
        ensures
            final(self).wf(),
            result == old(self)@[old(self).read_index()],
            final(self)@ == old(self)@,
            final(self).spec_capacity() == old(self).spec_capacity(),
            final(self).write_index() == old(self).write_index(),
            final(self).read_index() == (old(self).read_index() + 1) % old(self).spec_capacity(),
    {
        let val = self.buffer[self.read_pointer];
        self.read_pointer = (self.read_pointer + 1) % self.length;
        val
    }

    pub fn get_read_index(&self) -> (result: usize)
        ensures
            result == self.read_index(),
    {
        self.read_pointer
    }

    /// Move the read cursor to `index`, normalized modulo the capacity.
    pub fn set_read_index(&mut self, index: usize)
        requires
            old(self).wf(),
        ensures
            final(self).wf(),
            final(self)@ == old(self)@,
            final(self).spec_capacity() == old(self).spec_capacity(),
            final(self).write_index() == old(self).write_index(),
            final(self).read_index() == index as int % old(self).spec_capacity(),
    {
        self.read_pointer = index % self.length;
    }

    pub fn get_write_index(&self) -> (result: usize)
        ensures
            result == self.write_index(),
    {
        self.write_pointer
    }

    /// Move the write cursor to `index`, normalized modulo the capacity.
    pub fn set_write_index(&mut self, index: usize)
        requires
            old(self).wf(),
        ensures
            final(self).wf(),
            final(self)@ == old(self)@,
            final(self).spec_capacity() == old(self).spec_capacity(),
            final(self).read_index() == old(self).read_index(),
            final(self).write_index() == index as int % old(self).spec_capacity(),
    {
        self.write_pointer = index % self.length;
    }

    /// Position of the write cursor: the fill level until the first wrap.
    pub fn len(&self) -> (result: usize)
        ensures
            result == self.write_index(),
    {
        self.write_pointer
    }

    pub fn capacity(&self) -> (result: usize)
        ensures
            result == self.spec_capacity(),
    {
        self.length
    }
}

/// Linear interpolation between the slots at `floor(index / UNIT) mod cap`
/// and the following slot, weighted by the fractional part of the
/// `UNIT`-scaled `index`.  Exact at integer indices.
pub open spec fn interp_at(s: Seq<i64>, index: int) -> int {
    let cap = s.len() as int;
    let whole = index / (UNIT as int);
    let frac = index % (UNIT as int);
    let a = s[whole % cap];
    let b = s[(whole + 1) % cap];
    div_trunc(a * ((UNIT as int) - frac) + b * frac, UNIT as int)
}

impl RingBuffer<i64> {
    /// Fractional read: `index` counts slots scaled by `UNIT`.  A negative
    /// index is outside the buffer's domain and is reported rather than
    /// wrapped.
    pub fn get_frac(&self, index: i64) -> (result: Result<i64, WahwahError>)
        requires
            self.wf(),
            self.spec_capacity() * UNIT <= i64::MAX,
            forall|i: int| 0 <= i < self@.len() ==> -SLOT_LIMIT <= #[trigger] self@[i] <= SLOT_LIMIT,
        ensures
            index >= 0 ==> (result matches Ok(v) && v as int == interp_at(self@, index as int)),
            index < 0 ==> result == Err::<i64, WahwahError>(WahwahError::InvalidBufferAccess),
    {
        if index < 0 {
            return Err(WahwahError::InvalidBufferAccess);
        }
        let cap: i64 = self.length as i64;
        let whole: i64 = index / UNIT;
        let frac: i64 = index % UNIT;
        let ia: usize = (whole % cap) as usize;
        let ib: usize = ((whole + 1) % cap) as usize;
        let a: i64 = self.buffer[ia];
        let b: i64 = self.buffer[ib];
        proof {
            lemma_mul_abs_bound(a as int, (UNIT - frac) as int, SLOT_LIMIT as int, UNIT as int);
            lemma_mul_abs_bound(b as int, frac as int, SLOT_LIMIT as int, UNIT as int);
        }
        let num: i64 = a * (UNIT - frac) + b * frac;
        Ok(div_unit(num))
    }
}

/// The slot contents after writing each value of `vals` in turn with an
/// advancing write that starts at cursor `w` and wraps at the capacity.
pub open spec fn push_all<T>(s: Seq<T>, w: int, vals: Seq<T>) -> Seq<T>
    decreases vals.len(),
{
    if vals.len() == 0 {
        s
    } else {
        push_all(s.update(w, vals[0]), (w + 1) % (s.len() as int), vals.skip(1))
    }
}

/// Slots that no write of the sequence lands on keep their value.
proof fn lemma_push_all_frame<T>(s: Seq<T>, w: int, vals: Seq<T>, p: int)
    requires
        s.len() >= 1,
        0 <= w < s.len(),
        vals.len() <= s.len(),
        0 <= p < s.len(),
        forall|i: int| 0 <= i < vals.len() ==> p != #[trigger] ((w + i) % (s.len() as int)),
    ensures
        push_all(s, w, vals)[p] == s[p],
    decreases vals.len(),
{
    let cap = s.len() as int;
    if vals.len() > 0 {
        vstd::arithmetic::div_mod::lemma_small_mod(w as nat, cap as nat);
        assert(p != w) by {
            assert((w + 0) % cap == w);
        }
        let s1 = s.update(w, vals[0]);
        let w1 = (w + 1) % cap;
        vstd::arithmetic::div_mod::lemma_mod_bound(w + 1, cap);
        assert forall|i: int| 0 <= i < vals.skip(1).len() implies p != #[trigger] ((w1 + i) % cap) by {
            vstd::arithmetic::div_mod::lemma_small_mod(i as nat, cap as nat);
            vstd::arithmetic::div_mod::lemma_add_mod_noop(w + 1, i, cap);
            assert((w1 + i) % cap == (w + (i + 1)) % cap);
        }
        lemma_push_all_frame(s1, w1, vals.skip(1), p);
    }
}

proof fn lemma_push_all_index<T>(s: Seq<T>, w: int, vals: Seq<T>, j: int)
    requires
        s.len() >= 1,
        0 <= w < s.len(),
        vals.len() <= s.len(),
        0 <= j < vals.len(),
    ensures
        push_all(s, w, vals)[(w + j) % (s.len() as int)] == vals[j],
    decreases vals.len(),
{
    let cap = s.len() as int;
    let s1 = s.update(w, vals[0]);
    let w1 = (w + 1) % cap;
    vstd::arithmetic::div_mod::lemma_mod_bound(w + 1, cap);
    if j == 0 {
        vstd::arithmetic::div_mod::lemma_small_mod(w as nat, cap as nat);
        assert forall|i: int| 0 <= i < vals.skip(1).len() implies w != #[trigger] ((w1 + i) % cap) by {
            vstd::arithmetic::div_mod::lemma_small_mod(i as nat, cap as nat);
            vstd::arithmetic::div_mod::lemma_add_mod_noop(w + 1, i, cap);
            assert((w1 + i) % cap == (w + (i + 1)) % cap);
            if w + i + 1 < cap {
                vstd::arithmetic::div_mod::lemma_small_mod((w + i + 1) as nat, cap as nat);
            } else {
                vstd::arithmetic::div_mod::lemma_fundamental_div_mod_converse(
                    w + (i + 1), cap, 1, w + i + 1 - cap);
            }
        }
        lemma_push_all_frame(s1, w1, vals.skip(1), w);
    } else {
        lemma_push_all_index(s1, w1, vals.skip(1), j - 1);
        vstd::arithmetic::div_mod::lemma_small_mod((j - 1) as nat, cap as nat);
        vstd::arithmetic::div_mod::lemma_add_mod_noop(w + 1, j - 1, cap);
        assert((w1 + (j - 1)) % cap == (w + j) % cap);
    }
}

/// Ring continuity: write any `vals` of length at most the capacity with
/// advancing writes starting at cursor `start`, then read the same count
/// back with advancing reads starting at the same cursor (the slot a
/// `pop` reads `j` steps later is `(start + j) mod capacity`, by `pop`'s
/// contract): the values come back in first-in-first-out order, with both
/// cursors wrapping at the capacity boundary.
pub proof fn lemma_ring_fifo<T>(s: Seq<T>, start: int, vals: Seq<T>, j: int)
    requires
        s.len() >= 1,
        0 <= start < s.len(),
        vals.len() <= s.len(),
        0 <= j < vals.len(),
    ensures
        push_all(s, start, vals)[(start + j) % (s.len() as int)] == vals[j],
{
    lemma_push_all_index(s, start, vals, j);
}

/// Interpolation stays within any bound that holds for every slot.
pub proof fn lemma_interp_bounded(s: Seq<i64>, index: int, bound: int)
    requires
        s.len() >= 1,
        0 <= index,
        0 <= bound,
        forall|i: int| 0 <= i < s.len() ==> -bound <= #[trigger] s[i] <= bound,
    ensures
        -bound <= interp_at(s, index) <= bound,
{
    let cap = s.len() as int;
    let u = UNIT as int;
    let whole = index / u;
    let frac = index % u;
    vstd::arithmetic::div_mod::lemma_mod_bound(index, u);
    vstd::arithmetic::div_mod::lemma_div_pos_is_pos(index, u);
    vstd::arithmetic::div_mod::lemma_mod_bound(whole, cap);
    vstd::arithmetic::div_mod::lemma_mod_bound(whole + 1, cap);
    let a = s[whole % cap];
    let b = s[(whole + 1) % cap];
    lemma_mul_abs_bound(a as int, u - frac, bound, u - frac);
    lemma_mul_abs_bound(b as int, frac, bound, frac);
    assert(bound * (u - frac) + bound * frac == bound * u) by (nonlinear_arith);
    lemma_div_trunc_bound(a * (u - frac) + b * frac, u, bound);
}

/// Interpolation exactness at whole indices: a fractional read at the
/// integer position `k` returns exactly the slot at `k mod capacity`.
pub proof fn lemma_interp_integer_index(s: Seq<i64>, k: int)
    requires
        s.len() >= 1,
        0 <= k,
    ensures
        interp_at(s, k * (UNIT as int)) == s[k % (s.len() as int)],
{
    let cap = s.len() as int;
    let u = UNIT as int;
    vstd::arithmetic::div_mod::lemma_fundamental_div_mod_converse(k * u, u, k, 0);
    let a = s[k % cap];
    assert(a * (u - 0) + s[(k + 1) % cap] * 0 == a * u);
    lemma_div_trunc_exact(a as int, u);
}

/// Interpolation at the midpoint between two whole indices is the
/// arithmetic mean of the two neighboring slots (stated doubled, so the
/// statement is exact whenever the two slots have an even sum).
pub proof fn lemma_interp_midpoint(s: Seq<i64>, k: int)
    requires
        s.len() >= 1,
        0 <= k,
        (s[k % (s.len() as int)] + s[(k + 1) % (s.len() as int)]) % 2 == 0,
    ensures
        2 * interp_at(s, k * (UNIT as int) + (UNIT as int) / 2)
            == s[k % (s.len() as int)] + s[(k + 1) % (s.len() as int)],
{
    let cap = s.len() as int;
    let u = UNIT as int;
    let half = u / 2;
    vstd::arithmetic::div_mod::lemma_fundamental_div_mod_converse(k * u + half, u, k, half);
    let a = s[k % cap];
    let b = s[(k + 1) % cap];
    let m = (a + b) / 2;
    vstd::arithmetic::div_mod::lemma_fundamental_div_mod(a + b, 2);
    assert(a + b == 2 * m);
    assert(a * (u - half) + b * half == m * u) by (nonlinear_arith)
        requires a + b == 2 * m && half == 500_000 && u == 1_000_000;
    lemma_div_trunc_exact(m, u);
}

} // verus!
