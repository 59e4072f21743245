use vstd::prelude::*;

verus! {

/// The logical window after one tick: the oldest sample comes round to the
/// front as the new, not yet written, newest slot, and every other sample
/// moves one place back.
pub open spec fn advanced(s: Seq<u64>) -> Seq<u64> {
    seq![s.last()] + s.drop_last()
}

/// The logical window after one tick whose sample is `v`.
pub open spec fn recorded(s: Seq<u64>, v: u64) -> Seq<u64> {
    advanced(s).update(0, v)
}

/// The logical window after recording each sample of `vs`, in order.
pub open spec fn recorded_all(s: Seq<u64>, vs: Seq<u64>) -> Seq<u64>
    decreases vs.len(),
{
    if vs.len() == 0 {
        s
    } else {
        recorded(recorded_all(s, vs.drop_last()), vs.last())
    }
}

/// A fixed-capacity circular store of samples. Logical index 0 is the newest
/// sample, logical index `capacity - 1` the oldest.
pub struct RotatingSampleBuffer {
    data: Vec<u64>,
    start: usize,
}

impl View for RotatingSampleBuffer {
    type V = Seq<u64>;

    /// The samples in logical order, newest first.
    closed spec fn view(&self) -> Seq<u64> {
        Seq::new(
            self.data@.len(),
            |i: int|
                if self.start + i < self.data@.len() {
                    self.data@[self.start + i]
                } else {
                    self.data@[self.start + i - self.data@.len()]
                },
        )
    }
}

impl RotatingSampleBuffer {
    pub closed spec fn wf(&self) -> bool {
        &&& self.data@.len() >= 1
        &&& self.start < self.data@.len()
    }

    /// Creates a buffer of `capacity` samples, all zero.
    pub fn new(capacity: usize) -> (r: RotatingSampleBuffer)
        requires
            capacity >= 1,
        ensures
            r.wf(),
            r@ == Seq::new(capacity as nat, |i: int| 0u64),
    {
        let mut data: Vec<u64> = Vec::new();
        while data.len() < capacity
            invariant
                data.len() <= capacity,
                forall|j: int| 0 <= j < data@.len() ==> data@[j] == 0,
            decreases capacity - data.len(),
        {
            data.push(0);
        }
        let r = RotatingSampleBuffer { data, start: 0 };
        assert(r@ =~= Seq::new(capacity as nat, |i: int| 0u64));
        r
    }

    /// The fixed number of samples held.
    pub fn capacity(&self) -> (r: usize)
        requires
            self.wf(),
        ensures
            r == self@.len(),
    {
        self.data.len()
    }

    fn physical(&self, index: usize) -> (p: usize)
        requires
            self.wf(),
            index < self.data@.len(),
        ensures
            p < self.data@.len(),
            self@[index as int] == self.data@[p as int],
            p == if self.start + index < self.data@.len() {
                self.start + index
            } else {
                self.start + index - self.data@.len()
            },
    {
        if index < self.data.len() - self.start {
            self.start + index
        } else {
            index - (self.data.len() - self.start)
        }
    }

    /// Shifts the window by one tick: the sample at index `k` moves to
    /// index `k + 1`, the oldest is dropped, and its slot becomes index 0.
    pub fn advance(&mut self)
        requires
            old(self).wf(),
        ensures
            final(self).wf(),
            final(self)@ == advanced(old(self)@),
    {
        if self.start == 0 {
            self.start = self.data.len() - 1;
        } else {
            self.start = self.start - 1;
        }
        assert(self@ =~= advanced(old(self)@));
    }

    /// Sets the sample at logical index `index`.
    pub fn write(&mut self, index: usize, value: u64)
        requires
            old(self).wf(),
            index < old(self)@.len(),
        ensures
            final(self).wf(),
            final(self)@ == old(self)@.update(index as int, value),
    {
        let p = self.physical(index);
        self.data.set(p, value);
        assert(self@ =~= old(self)@.update(index as int, value));
    }

    /// The sample at logical index `index`.
    pub fn read(&self, index: usize) -> (r: u64)
        requires
            self.wf(),
            index < self@.len(),
        ensures
            r == self@[index as int],
    {
        let p = self.physical(index);
        self.data[p]
    }

    /// Advances the window and writes `value` as the newest sample.
    pub fn record(&mut self, value: u64)
        requires
            old(self).wf(),
        ensures
            final(self).wf(),
            final(self)@ == recorded(old(self)@, value),
    {
        self.advance();
        self.write(0, value);
    }

    /// All samples, oldest first.
    pub fn iter_chronological(&self) -> (r: Vec<u64>)
        requires
            self.wf(),
        ensures
            r@ == self@.reverse(),
    {
        let n = self.data.len();
        let mut r: Vec<u64> = Vec::new();
        let mut k: usize = 0;
        while k < n
            invariant
                n == self@.len(),
                self.wf(),
                k <= n,
                r@.len() == k,
                forall|j: int| 0 <= j < k ==> r@[j] == self@[n - 1 - j],
            decreases n - k,
        {
            r.push(self.read(n - 1 - k));
            k = k + 1;
        }
        assert(r@ =~= self@.reverse());
        r
    }
}

/// Recording a sequence of samples leaves the newest ones at the front, latest
/// first, and the older contents behind them.
pub proof fn lemma_recorded_all_index(s: Seq<u64>, vs: Seq<u64>, i: int)
    requires
        s.len() >= 1,
        0 <= i < s.len(),
    ensures
        recorded_all(s, vs).len() == s.len(),
        recorded_all(s, vs)[i] == if i < vs.len() {
            vs[vs.len() - 1 - i]
        } else {
            s[i - vs.len()]
        },
    decreases vs.len(),
{
    if vs.len() > 0 {
        lemma_recorded_all_index(s, vs.drop_last(), i);
        if i > 0 {
            lemma_recorded_all_index(s, vs.drop_last(), i - 1);
        }
    }
}

/// After as many recordings as the buffer holds, the window read oldest first
/// is exactly the recorded values in the order they were written.
pub proof fn lemma_full_cycle(s: Seq<u64>, vs: Seq<u64>)
    requires
        s.len() >= 1,
        vs.len() == s.len(),
    ensures
        recorded_all(s, vs).reverse() == vs,
{
    assert forall|j: int| 0 <= j < vs.len() implies recorded_all(s, vs).reverse()[j] == vs[j] by {
        lemma_recorded_all_index(s, vs, s.len() - 1 - j);
    }
    lemma_recorded_all_index(s, vs, 0);
    assert(recorded_all(s, vs).reverse() =~= vs);
}

/// After any number of recordings, index 0 holds the value written last.
pub proof fn lemma_newest_is_last_written(s: Seq<u64>, vs: Seq<u64>)
    requires
        s.len() >= 1,
        vs.len() >= 1,
    ensures
        recorded_all(s, vs)[0] == vs.last(),
{
    lemma_recorded_all_index(s, vs, 0);
}

} // verus!
