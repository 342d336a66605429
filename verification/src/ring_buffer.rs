//! Fixed-size ring buffer of audio samples for the visualizer: the audio
//! side pushes samples, the visualizer copies out the most recent ones.
//!
//! Samples are held as the IEEE-754 bit patterns of `f32` values, so they
//! pass through unchanged.

use vstd::prelude::*;

verus! {

/// Abstract state of a ring buffer.
#[verifier::ext_equal]
pub struct RingView {
    /// The stored samples, one slot per position.
    pub slots: Seq<u32>,
    /// Number of pushes so far (wrapping at `usize::MAX + 1`).
    pub write_pos: usize,
}

/// The slot that the `i`-th of the `len` most recent samples occupies.
pub open spec fn snapshot_slot(write_pos: usize, size: int, len: int, i: int) -> int {
    (write_pos + size - len + i) % size
}

/// The snapshot of `len` samples: oldest first.
pub open spec fn snapshot_of(r: RingView, len: int) -> Seq<u32> {
    Seq::new(len as nat, |i: int| r.slots[snapshot_slot(r.write_pos, r.slots.len() as int, len, i)])
}

/// The buffer after pushing `sample`.
pub open spec fn pushed(r: RingView, sample: u32) -> RingView {
    RingView {
        slots: r.slots.update((r.write_pos as int) % (r.slots.len() as int), sample),
        write_pos: (if r.write_pos == usize::MAX { 0 } else { r.write_pos + 1 }) as usize,
    }
}

/// A single-writer ring buffer of samples.
pub struct RingBuffer {
    buffer: Vec<u32>,
    write_pos: usize,
}

impl View for RingBuffer {
    type V = RingView;

    closed spec fn view(&self) -> RingView {
        RingView { slots: self.buffer@, write_pos: self.write_pos }
    }
}

impl RingBuffer {
    /// A buffer of `size` slots, all 0 (the bits of `0.0`).
    pub fn new(size: usize) -> (r: Self)
        ensures
            r@.slots == Seq::new(size as nat, |i: int| 0u32),
            r@.write_pos == 0,
    {
        let mut buffer: Vec<u32> = Vec::new();
        let mut i: usize = 0;
        while i < size
            invariant
                0 <= i <= size,
                buffer@ == Seq::new(i as nat, |k: int| 0u32),
            decreases size - i,
        {
            buffer.push(0);
            i += 1;
            assert(buffer@ =~= Seq::new(i as nat, |k: int| 0u32));
        }
        RingBuffer { buffer, write_pos: 0 }
    }

    /// The number of slots.
    pub fn size(&self) -> (r: usize)
        ensures
            r == self@.slots.len(),
    {
        self.buffer.len()
    }

    /// Store `sample` in the slot after the previous one, overwriting the
    /// oldest sample once the buffer is full.
    pub fn push(&mut self, sample: u32)
        requires
            old(self)@.slots.len() > 0,
        ensures
            final(self)@ == pushed(old(self)@, sample),
    {
        let pos = self.write_pos % self.buffer.len();
        self.buffer.set(pos, sample);
        self.write_pos = self.write_pos.wrapping_add(1);
    }

    /// Copy the most recent `min(dest.len(), size)` samples into the front of
    /// `dest`, oldest first; the rest of `dest` is left as it was.
    pub fn snapshot(&self, dest: &mut [u32])
        ensures
            ({
                let len = if old(dest)@.len() <= self@.slots.len() { old(dest)@.len() as int } else {
                    self@.slots.len() as int
                };
                final(dest)@ == snapshot_of(self@, len) + old(dest)@.subrange(len, old(dest)@.len() as int)
            }),
    {
        let size = self.buffer.len();
        let len = if dest.len() <= size { dest.len() } else { size };
        if len == 0 {
            assert(dest@ =~= snapshot_of(self@, 0) + dest@.subrange(0, dest@.len() as int));
            return;
        }
        let ghost d0 = dest@;
        let base = self.write_pos % size;
        let mut i: usize = 0;
        while i < len
            invariant
                0 < len <= size,
                size == self.buffer@.len(),
                len <= d0.len(),
                dest@.len() == d0.len(),
                base == (self.write_pos as int) % (size as int),
                base < size,
                forall|k: int| 0 <= k < i ==> dest@[k] == self.buffer@[snapshot_slot(self.write_pos, size as int, len as int, k)],
                forall|k: int| i <= k < dest@.len() ==> dest@[k] == d0[k],
                i <= len,
            decreases len - i,
        {
            let idx = ((base as u128 + (size - len) as u128 + i as u128) % (size as u128)) as usize;
            proof {
                lemma_slot_from_base(self.write_pos as int, size as int, len as int, i as int);
            }
            dest[i] = self.buffer[idx];
            i += 1;
        }
        assert(dest@ =~= snapshot_of(self@, len as int) + d0.subrange(len as int, d0.len() as int));
    }

    /// The number of samples pushed so far (wrapping).
    pub fn write_position(&self) -> (r: usize)
        ensures
            r == self@.write_pos,
    {
        self.write_pos
    }
}

/// Computing the slot from `w % size` gives the same slot as from `w`.
proof fn lemma_slot_from_base(w: int, size: int, len: int, i: int)
    requires
        0 <= w,
        0 < len <= size,
        0 <= i < len,
    ensures
        ((w % size) + (size - len) + i) % size == (w + size - len + i) % size,
{
    vstd::arithmetic::div_mod::lemma_add_mod_noop(w, size - len + i, size);
    vstd::arithmetic::div_mod::lemma_mod_twice(w, size);
    vstd::arithmetic::div_mod::lemma_small_mod((size - len + i) as nat, size as nat);
}

/// The buffer after pushing `samples` in order.
pub open spec fn pushed_all(r: RingView, samples: Seq<u32>) -> RingView
    decreases samples.len(),
{
    if samples.len() == 0 {
        r
    } else {
        pushed(pushed_all(r, samples.drop_last()), samples.last())
    }
}

/// Two positions less than `m` apart fall in different slots.
proof fn lemma_distinct_slots(x: int, d: int, m: int)
    requires
        0 <= x,
        0 < d < m,
    ensures
        x % m != (x + d) % m,
{
    vstd::arithmetic::div_mod::lemma_mod_equivalence(x, x + d, m);
    vstd::arithmetic::div_mod::lemma_mod_sub_multiples_vanish(m - d, m);
    vstd::arithmetic::div_mod::lemma_small_mod((m - d) as nat, m as nat);
    assert(x - (x + d) == -m + (m - d));
}

/// After pushing samples without the count wrapping, each of the last
/// `size` samples sits in the slot of its push.
proof fn lemma_pushed_all_slots(r: RingView, samples: Seq<u32>)
    requires
        r.slots.len() > 0,
        r.write_pos + samples.len() <= usize::MAX,
    ensures
        pushed_all(r, samples).slots.len() == r.slots.len(),
        pushed_all(r, samples).write_pos == r.write_pos + samples.len(),
        forall|j: int| #![trigger samples[j]]
            0 <= j < samples.len() && samples.len() - j <= r.slots.len()
            ==> pushed_all(r, samples).slots[(r.write_pos + j) % (r.slots.len() as int)] == samples[j],
    decreases samples.len(),
{
    if samples.len() > 0 {
        let prev = samples.drop_last();
        lemma_pushed_all_slots(r, prev);
        let m = r.slots.len() as int;
        let k = samples.len() - 1;
        let q = pushed_all(r, prev);
        assert forall|j: int| #![trigger samples[j]]
            0 <= j < samples.len() && samples.len() - j <= m
            implies pushed_all(r, samples).slots[(r.write_pos + j) % m] == samples[j] by {
            if j < k {
                assert(prev[j] == samples[j]);
                lemma_distinct_slots(r.write_pos + j, k - j, m);
            }
        }
    }
}

/// A snapshot returns the most recent samples pushed, oldest first: after
/// pushing at least `len` samples (`len` at most the size, the count not
/// wrapping), a snapshot of `len` samples is the last `len` of them.
pub proof fn lemma_snapshot_returns_latest(r: RingView, samples: Seq<u32>, len: int)
    requires
        r.slots.len() > 0,
        0 <= len <= r.slots.len(),
        len <= samples.len(),
        r.write_pos + samples.len() <= usize::MAX,
    ensures
        snapshot_of(pushed_all(r, samples), len) == samples.subrange(samples.len() - len, samples.len() as int),
{
    lemma_pushed_all_slots(r, samples);
    let m = r.slots.len() as int;
    let k = samples.len() as int;
    let p = pushed_all(r, samples);
    assert forall|i: int| 0 <= i < len implies #[trigger] snapshot_of(p, len)[i] == samples[k - len + i] by {
        let b = r.write_pos + k - len + i;
        vstd::arithmetic::div_mod::lemma_mod_add_multiples_vanish(b, m);
        assert(snapshot_slot(p.write_pos, m, len, i) == (m + b) % m);
    }
    assert(snapshot_of(p, len) =~= samples.subrange(k - len, k));
}

} // verus!
