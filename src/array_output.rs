use vstd::prelude::*;

verus! {

/// A byte result produced once by the host and drained by the guest in
/// pulls of any size.
pub struct ArrayOutput {
    data: Vec<u8>,
    pos: usize,
}

impl ArrayOutput {
    /// The bytes already pulled.
    pub closed spec fn pulled(&self) -> Seq<u8> {
        self.data@.subrange(0, self.pos as int)
    }

    /// The bytes not pulled yet.
    pub closed spec fn remaining(&self) -> Seq<u8> {
        self.data@.subrange(self.pos as int, self.data@.len() as int)
    }

    /// The whole output, fixed at creation.
    pub closed spec fn total(&self) -> Seq<u8> {
        self.data@
    }

    pub closed spec fn wf(&self) -> bool {
        self.pos <= self.data@.len()
    }

    /// The pulled and the remaining bytes make up the whole output.
    pub proof fn lemma_split(&self)
        requires
            self.wf(),
        ensures
            self.pulled() + self.remaining() == self.total(),
    {
        assert(self.pulled() + self.remaining() =~= self.total());
    }

    /// A stream over `data` with nothing pulled yet.
    pub fn new(data: Vec<u8>) -> (r: Self)
        ensures
            r.wf(),
            r.total() == data@,
            r.pulled() == Seq::<u8>::empty(),
            r.remaining() == data@,
    {
        let r = ArrayOutput { data, pos: 0 };
        assert(r.remaining() =~= data@);
        assert(r.pulled() =~= Seq::<u8>::empty());
        r
    }

    /// The number of bytes not pulled yet.
    pub fn len(&self) -> (r: usize)
        requires
            self.wf(),
        ensures
            r == self.remaining().len(),
    {
        self.data.len() - self.pos
    }

    /// Takes the next `min(max, remaining)` bytes and moves the cursor past them.
    pub fn pull(&mut self, max: usize) -> (r: Vec<u8>)
        requires
            old(self).wf(),
        ensures
            final(self).wf(),
            final(self).total() == old(self).total(),
            r@.len() == if max < old(self).remaining().len() { max as int } else { old(self).remaining().len() as int },
            r@ == old(self).remaining().take(r@.len() as int),
            final(self).pulled() == old(self).pulled() + r@,
            final(self).remaining() == old(self).remaining().skip(r@.len() as int),
    {
        let total = self.data.len();
        let avail = total - self.pos;
        let n: usize = if max < avail { max } else { avail };
        let mut out: Vec<u8> = Vec::with_capacity(n);
        let mut i: usize = 0;
        while i < n
            invariant
                self.wf(),
                total == self.data@.len(),
                n <= self.data@.len() - self.pos,
                i <= n,
                out@ == self.data@.subrange(self.pos as int, self.pos + i),
            decreases n - i,
        {
            out.push(self.data[self.pos + i]);
            i = i + 1;
            assert(out@ =~= self.data@.subrange(self.pos as int, self.pos + i));
        }
        let ghost before = *self;
        self.pos = self.pos + n;
        assert(out@ =~= before.remaining().take(n as int));
        assert(self.pulled() =~= before.pulled() + out@);
        assert(self.remaining() =~= before.remaining().skip(n as int));
        out
    }
}

/// The bytes of a series of pulls, one after the other.
pub open spec fn concat_all(outs: Seq<Seq<u8>>) -> Seq<u8>
    decreases outs.len(),
{
    if outs.len() == 0 {
        Seq::empty()
    } else {
        concat_all(outs.drop_last()) + outs.last()
    }
}

/// Pulls drain an output exactly.  Take a fresh stream and the states after
/// each of a series of pulls, which took `outs`: the bytes pulled are the
/// pulls' results in order, with what remains they make up the whole output,
/// what remains never grows, and once nothing remains the pulls' lengths sum
/// to the output's length.
pub proof fn lemma_drain(states: Seq<ArrayOutput>, outs: Seq<Seq<u8>>)
    requires
        states.len() == outs.len() + 1,
        states[0].wf(),
        states[0].pulled() == Seq::<u8>::empty(),
        forall|i: int| 0 <= i < outs.len() ==> {
            &&& (#[trigger] states[i + 1]).wf()
            &&& states[i + 1].total() == states[i].total()
            &&& states[i + 1].pulled() == states[i].pulled() + outs[i]
        },
    ensures
        states.last().pulled() == concat_all(outs),
        states.last().pulled() + states.last().remaining() == states[0].total(),
        forall|i: int| 0 <= i < outs.len() ==> (#[trigger] states[i + 1]).remaining().len() <= states[i].remaining().len(),
        states.last().remaining().len() == 0 ==> concat_all(outs).len() == states[0].total().len(),
    decreases outs.len(),
{
    if outs.len() > 0 {
        let n = outs.len() - 1;
        lemma_drain(states.drop_last(), outs.drop_last());
        assert(states.drop_last().last() == states[n]);
        if n > 0 {
            assert(states[(n - 1) + 1].wf());
        }
        states[n].lemma_split();
        states[n + 1].lemma_split();
        assert forall|i: int| 0 <= i < outs.len() implies (#[trigger] states[i + 1]).remaining().len()
            <= states[i].remaining().len() by {
            if i > 0 {
                assert(states[(i - 1) + 1].wf());
            }
            states[i].lemma_split();
            states[i + 1].lemma_split();
            assert(states[i].total() == states[0].total()) by {
                lemma_total_fixed(states, outs, i);
            }
        }
    } else {
        states[0].lemma_split();
    }
}

/// The whole output stays the same over a series of pulls.
proof fn lemma_total_fixed(states: Seq<ArrayOutput>, outs: Seq<Seq<u8>>, i: int)
    requires
        states.len() == outs.len() + 1,
        0 <= i <= outs.len(),
        forall|j: int| 0 <= j < outs.len() ==> {
            &&& (#[trigger] states[j + 1]).wf()
            &&& states[j + 1].total() == states[j].total()
            &&& states[j + 1].pulled() == states[j].pulled() + outs[j]
        },
    ensures
        states[i].total() == states[0].total(),
    decreases i,
{
    if i > 0 {
        lemma_total_fixed(states, outs, i - 1);
        assert(states[(i - 1) + 1].total() == states[i - 1].total());
    }
}

} // verus!
