//! Small shared utilities: paired sample rates, a fixed-size ring buffer,
//! an iterator-like value repeater, a buffered writer core, and a two-phase
//! initialisation cell.

use vstd::prelude::*;

verus! {

/// The input and output streams of a duplex audio session need not share a
/// rate, so both are carried together; codecs read the side relevant to
/// their direction.
#[derive(Debug, Clone, Copy, PartialEq, Eq, Structural)]
pub struct SampleRate {
    /// Samples per second of the input (capture) stream.
    pub input: u32,
    /// Samples per second of the output (playback) stream.
    pub output: u32,
}

impl SampleRate {
    /// A pair of possibly distinct input and output rates.
    pub fn new(input: u32, output: u32) -> (r: Self)
        ensures
            r.input == input,
            r.output == output,
    {
        Self { input, output }
    }

    /// Both directions run at `hz`.
    pub fn from_hz(hz: u32) -> (r: Self)
        ensures
            r.input == hz,
            r.output == hz,
    {
        Self::new(hz, hz)
    }
}

impl From<u32> for SampleRate {
    fn from(hz: u32) -> (r: Self) {
        Self::from_hz(hz)
    }
}

impl vstd::std_specs::convert::FromSpecImpl<u32> for SampleRate {
    open spec fn obeys_from_spec() -> bool {
        true
    }

    open spec fn from_spec(hz: u32) -> Self {
        SampleRate { input: hz, output: hz }
    }
}


/// The smaller of two machine integers.
pub open spec fn spec_min_i64(a: int, b: int) -> int {
    if a < b {
        a
    } else {
        b
    }
}

/// The larger of two machine integers.
pub open spec fn spec_max_i64(a: int, b: int) -> int {
    if a > b {
        a
    } else {
        b
    }
}

/// The minimum of a sequence, folded left to right from the neutral
/// element `i64::MAX`.
pub open spec fn spec_fold_min(s: Seq<i64>) -> int
    decreases s.len(),
{
    if s.len() == 0 {
        i64::MAX as int
    } else {
        spec_min_i64(spec_fold_min(s.drop_last()), s.last() as int)
    }
}

/// The maximum of a sequence, folded from `i64::MIN`.
pub open spec fn spec_fold_max(s: Seq<i64>) -> int
    decreases s.len(),
{
    if s.len() == 0 {
        i64::MIN as int
    } else {
        spec_max_i64(spec_fold_max(s.drop_last()), s.last() as int)
    }
}

/// The sum of a sequence.
pub open spec fn spec_fold_sum(s: Seq<i64>) -> int
    decreases s.len(),
{
    if s.len() == 0 {
        0
    } else {
        spec_fold_sum(s.drop_last()) + s.last()
    }
}

/// A fixed-capacity buffer that overwrites its oldest values once full.
/// The backing storage is allocated up front so pushes never allocate.
pub struct RingBuffer<T, const SIZE: usize> {
    data: Vec<T>,
    index: usize,
    filled: bool,
}

impl<T: Copy, const SIZE: usize> RingBuffer<T, SIZE> {
    /// The backing storage.
    pub closed spec fn storage(self) -> Seq<T> {
        self.data@
    }

    /// Where the next push lands.
    pub closed spec fn cursor(self) -> int {
        self.index as int
    }

    /// Whether the buffer has wrapped at least once.
    pub closed spec fn is_filled(self) -> bool {
        self.filled
    }

    pub open spec fn wf(self) -> bool {
        &&& self.storage().len() == SIZE
        &&& self.cursor() < SIZE
        &&& 1 <= SIZE <= 0x10000
    }

    /// The values that have actually been set: the whole storage once the
    /// buffer has wrapped, else the prefix written so far.
    pub open spec fn live(self) -> Seq<T> {
        if self.is_filled() {
            self.storage()
        } else {
            self.storage().take(self.cursor())
        }
    }

    /// An empty ring over `SIZE` slots primed with `fill`.
    pub fn new_with(fill: T) -> (r: Self)
        requires
            1 <= SIZE <= 0x10000,
        ensures
            r.wf(),
            !r.is_filled(),
            r.cursor() == 0,
            r.live() == Seq::<T>::empty(),
    {
        let mut data: Vec<T> = Vec::new();
        let mut i: usize = 0;
        while i < SIZE
            invariant
                i <= SIZE,
                data@.len() == i,
            decreases SIZE - i,
        {
            data.push(fill);
            i = i + 1;
        }
        proof {
            assert(Seq::<T>::empty() =~= data@.take(0));
        }
        Self { data, index: 0, filled: false }
    }

    /// Add a value, overwriting the oldest once the buffer has wrapped.
    pub fn push(&mut self, val: T)
        requires
            old(self).wf(),
        ensures
            final(self).wf(),
            final(self).storage() == old(self).storage().update(old(self).cursor(), val),
            final(self).cursor() == (old(self).cursor() + 1) % (SIZE as int),
            final(self).is_filled() == (old(self).is_filled() || old(self).cursor() + 1 == SIZE),
    {
        vstd::pervasive::VecAdditionalExecFns::set(&mut self.data, self.index, val);
        let idx = self.index + 1;
        self.index = idx % SIZE;
        if !self.filled && idx == SIZE {
            self.filled = true;
        }
    }

    /// The values that have actually been set, oldest-write first in
    /// storage order.
    pub fn values(&self) -> (r: Vec<T>)
        requires
            self.wf(),
        ensures
            r@ == self.live(),
    {
        let hi = if self.filled {
            self.data.len()
        } else {
            self.index
        };
        let mut out: Vec<T> = Vec::new();
        let mut i: usize = 0;
        while i < hi
            invariant
                self.wf(),
                hi <= self.storage().len(),
                i <= hi,
                out@ =~= self.storage().take(i as int),
            decreases hi - i,
        {
            out.push(self.data[i]);
            proof {
                assert(out@ =~= self.storage().take(i + 1));
            }
            i = i + 1;
        }
        proof {
            if self.filled {
                assert(self.storage().take(self.storage().len() as int) =~= self.storage());
            }
        }
        out
    }
}

impl<const SIZE: usize> RingBuffer<i64, SIZE> {
    /// An empty ring of integers.
    pub fn new() -> (r: Self)
        requires
            1 <= SIZE <= 0x10000,
        ensures
            r.wf(),
            !r.is_filled(),
            r.cursor() == 0,
            r.live() == Seq::<i64>::empty(),
    {
        Self::new_with(0)
    }

    /// The smallest live value; the fold's neutral element `i64::MAX` if
    /// nothing is live.
    pub fn min(&self) -> (r: i64)
        requires
            self.wf(),
        ensures
            r == spec_fold_min(self.live()),
    {
        let vals = self.values();
        let mut acc: i64 = i64::MAX;
        let mut i: usize = 0;
        while i < vals.len()
            invariant
                vals@ == self.live(),
                i <= vals@.len(),
                acc == spec_fold_min(vals@.take(i as int)),
            decreases vals@.len() - i,
        {
            if vals[i] < acc {
                acc = vals[i];
            }
            proof {
                assert(vals@.take(i + 1).drop_last() =~= vals@.take(i as int));
            }
            i = i + 1;
        }
        proof {
            assert(vals@.take(vals@.len() as int) =~= vals@);
        }
        acc
    }

    /// The largest live value; `i64::MIN` if nothing is live.
    pub fn max(&self) -> (r: i64)
        requires
            self.wf(),
        ensures
            r == spec_fold_max(self.live()),
    {
        let vals = self.values();
        let mut acc: i64 = i64::MIN;
        let mut i: usize = 0;
        while i < vals.len()
            invariant
                vals@ == self.live(),
                i <= vals@.len(),
                acc == spec_fold_max(vals@.take(i as int)),
            decreases vals@.len() - i,
        {
            if vals[i] > acc {
                acc = vals[i];
            }
            proof {
                assert(vals@.take(i + 1).drop_last() =~= vals@.take(i as int));
            }
            i = i + 1;
        }
        proof {
            assert(vals@.take(vals@.len() as int) =~= vals@);
        }
        acc
    }

    /// The (truncating) average of the live values.
    pub fn avg(&self) -> (r: i64)
        requires
            self.wf(),
            self.live().len() > 0,
        ensures
            r == crate::math::div_trunc(spec_fold_sum(self.live()), self.live().len() as int),
    {
        let vals = self.values();
        let mut sum: i128 = 0;
        let mut i: usize = 0;
        while i < vals.len()
            invariant
                vals@ == self.live(),
                vals@.len() <= 0x10000,
                i <= vals@.len(),
                sum == spec_fold_sum(vals@.take(i as int)),
                (i as int) * (i64::MIN as int) <= sum as int <= (i as int) * (i64::MAX as int),
            decreases vals@.len() - i,
        {
            proof {
                assert(vals@.take(i + 1).drop_last() =~= vals@.take(i as int));
                assert(((i + 1) as int) * (i64::MIN as int) == (i as int) * (i64::MIN as int)
                    + i64::MIN && ((i + 1) as int) * (i64::MAX as int) == (i as int) * (
                i64::MAX as int) + i64::MAX) by (nonlinear_arith);
            }
            sum = sum + vals[i] as i128;
            i = i + 1;
        }
        proof {
            assert(vals@.take(vals@.len() as int) =~= vals@);
        }
        let n = vals.len();
        proof {
            let ni = n as int;
            let lo = i64::MIN as int;
            let hi = i64::MAX as int;
            assert(ni * lo >= -(ni * 0x8000000000000000) && ni * hi <= ni * 0x8000000000000000)
                by (nonlinear_arith)
                requires
                    ni >= 1,
                    lo == -0x8000000000000000,
                    hi == 0x7FFFFFFFFFFFFFFF,
            ;
            crate::math::lemma_div_trunc_bound(sum as int, ni, 0x8000000000000000);
            if sum >= 0 {
                assert(ni * hi == hi * ni) by (nonlinear_arith);
                vstd::arithmetic::div_mod::lemma_multiply_divide_le(sum as int, ni, hi);
            } else {
                vstd::arithmetic::div_mod::lemma_div_pos_is_pos(-(sum as int), ni);
            }
        }
        let q: i128 = if sum >= 0 {
            sum / (n as i128)
        } else {
            -((-sum) / (n as i128))
        };
        q as i64
    }
}

/// Repeat each value of an underlying sequence a fixed number of times as
/// it is pulled.
pub struct ValueRepeat<T> {
    items: Vec<T>,
    /// Index of the next fresh item.
    pos: usize,
    /// Extra repetitions per item (one less than the requested count).
    reps: usize,
    /// Repetitions left of the current value.
    i: usize,
    val: Option<T>,
}

impl<T: Copy> ValueRepeat<T> {
    /// The items left to hand out.
    pub closed spec fn pending(self) -> Seq<T> {
        self.items@.skip(self.pos as int)
    }

    /// The value being repeated.
    pub closed spec fn current(self) -> Option<T> {
        self.val
    }

    /// Repetitions left of the current value.
    pub closed spec fn left(self) -> int {
        self.i as int
    }

    /// Extra repetitions per item.
    pub closed spec fn extra(self) -> int {
        self.reps as int
    }

    pub closed spec fn wf(self) -> bool {
        &&& self.left() <= self.extra()
        &&& self.pos <= self.items@.len()
    }

    /// Repeat each of `items` `reps` times.
    pub fn new(reps: usize, items: Vec<T>) -> (r: Self)
        requires
            1 <= reps,
        ensures
            r.wf(),
            r.pending() == items@,
            r.current() is None,
            r.extra() == reps - 1,
    {
        let reps = reps - 1;
        proof {
            assert(items@.skip(0) =~= items@);
        }
        Self { items, pos: 0, reps, val: None, i: reps }
    }

    /// Pull the next value: a fresh item every `reps + 1` calls, the same
    /// value in between, and nothing once the items run out.
    pub fn next(&mut self) -> (r: Option<T>)
        requires
            old(self).wf(),
        ensures
            final(self).wf(),
            final(self).extra() == old(self).extra(),
            // Time for a fresh item: take it (or stop if none is left).
            (old(self).current() is None || old(self).left() == 0) ==> (
            if old(self).pending().len() == 0 {
                r is None && final(self).current() is None && final(self).pending() == old(self).pending()
            } else {
                r == Some(old(self).pending()[0]) && final(self).current() == r && final(self).pending() == old(self).pending().skip(1) && final(self).left() == old(self).extra()
            }),
            // Mid-repetition: the same value again.
            !(old(self).current() is None || old(self).left() == 0) ==> r == old(self).current()
                && final(self).left() == old(self).left() - 1 && final(self).pending() == old(self).pending() && final(self).current() == old(self).current(),
    {
        let fetch = match self.val {
            None => true,
            Some(_) => self.i == 0,
        };
        if fetch {
            self.i = self.reps;
            if self.pos >= self.items.len() {
                self.val = None;
                proof {
                    assert(old(self).pending().len() == 0);
                }
                return None;
            }
            let v = self.items[self.pos];
            self.pos = self.pos + 1;
            self.val = Some(v);
            proof {
                vstd::seq_lib::lemma_seq_skip_of_skip(self.items@, old(self).pos as int, 1);
                assert(self.pending() =~= old(self).pending().skip(1));
            }
            return Some(v);
        }
        self.i = self.i - 1;
        self.val
    }
}

/// A buffered byte sink: writes accumulate in memory and are handed out
/// only when drained, so the wrapped destination sees one contiguous
/// block.
pub struct BufWriter<T> {
    inner: T,
    buf: Vec<u8>,
}

impl<T> BufWriter<T> {
    /// The bytes buffered so far.
    pub closed spec fn buffered(self) -> Seq<u8> {
        self.buf@
    }

    /// An empty buffer in front of `inner`.
    pub fn new(inner: T) -> (r: Self)
        ensures
            r.buffered() == Seq::<u8>::empty(),
    {
        Self { inner, buf: Vec::new() }
    }

    /// Append bytes to the buffer; nothing reaches the destination yet.
    pub fn write(&mut self, data: &Vec<u8>) -> (r: usize)
        requires
            old(self).buffered().len() + data@.len() <= 0x10000000,
        ensures
            final(self).buffered() == old(self).buffered() + data@,
            r == data@.len(),
    {
        let mut incoming = data.clone();
        self.buf.append(&mut incoming);
        proof {
            assert(self.buf@ =~= old(self).buffered() + data@);
        }
        data.len()
    }

    /// Take the buffered bytes out, leaving the buffer empty; the caller
    /// forwards them to the destination.
    pub fn drain(&mut self) -> (r: Vec<u8>)
        ensures
            r@ == old(self).buffered(),
            final(self).buffered() == Seq::<u8>::empty(),
    {
        let mut out: Vec<u8> = Vec::new();
        core::mem::swap(&mut out, &mut self.buf);
        out
    }

    /// Give the wrapped destination back.
    pub fn into_inner(self) -> T {
        self.inner
    }
}

/// A slot filled in a second construction phase: built empty, given its
/// value exactly once, and read thereafter.
pub struct Soon<T> {
    inner: Option<T>,
}

impl<T> Soon<T> {
    /// Whether the slot has been filled.
    pub closed spec fn is_set(self) -> bool {
        self.inner is Some
    }

    /// The stored value.
    pub closed spec fn value(self) -> T
        recommends
            self.is_set(),
    {
        self.inner->0
    }

    /// An empty slot.
    pub fn empty() -> (r: Self)
        ensures
            !r.is_set(),
    {
        Self { inner: None }
    }

    /// Fill the slot; only an empty slot may be filled.
    pub fn replace(&mut self, val: T)
        requires
            !old(self).is_set(),
        ensures
            final(self).is_set(),
            final(self).value() == val,
    {
        self.inner = Some(val);
    }

    /// Read the stored value.
    pub fn get(&self) -> (r: &T)
        requires
            self.is_set(),
        ensures
            *r == self.value(),
    {
        match &self.inner {
            Some(v) => v,
            None => unreached(),
        }
    }
}

} // verus!
