use vstd::prelude::*;
use crate::error::CryptoErrno;

verus! {

/// An arena of resources addressed by opaque handles.  Handle `h` names slot
/// `h - 1`; a closed slot is left as a tombstone, so handles count up from 1
/// and are not handed out twice by one table.
pub struct HandleTable<T> {
    slots: Vec<Option<T>>,
}

impl<T> View for HandleTable<T> {
    type V = Map<u32, T>;

    /// The live handles and the resource each one names.
    closed spec fn view(&self) -> Map<u32, T> {
        Map::new(
            |h: u32| 1 <= h && h <= self.slots@.len() && self.slots@[h - 1] is Some,
            |h: u32| self.slots@[h - 1]->Some_0,
        )
    }
}

impl<T> HandleTable<T> {
    /// How many handles this table has handed out so far.
    pub closed spec fn issued(&self) -> nat {
        self.slots@.len()
    }

    /// Every live handle is one that was handed out.
    pub proof fn lemma_live_issued(&self, h: u32)
        requires
            self@.contains_key(h),
        ensures
            1 <= h <= self.issued(),
    {
    }

    pub fn new() -> (r: Self)
        ensures
            r@ == Map::<u32, T>::empty(),
            r.issued() == 0,
    {
        let r = HandleTable { slots: Vec::new() };
        assert(r@ =~= Map::<u32, T>::empty());
        r
    }

    /// Registers a resource under a fresh handle: the next number after the
    /// last one handed out.  Fails only when the 32-bit handle space is used up.
    pub fn open(&mut self, v: T) -> (r: Result<u32, CryptoErrno>)
        ensures
            old(self).issued() < u32::MAX ==> {
                &&& r == Ok::<u32, CryptoErrno>((old(self).issued() + 1) as u32)
                &&& !old(self)@.contains_key((old(self).issued() + 1) as u32)
                &&& final(self)@ == old(self)@.insert((old(self).issued() + 1) as u32, v)
                &&& final(self).issued() == old(self).issued() + 1
            },
            old(self).issued() >= u32::MAX ==> {
                &&& r == Err::<u32, CryptoErrno>(CryptoErrno::ResourceExhausted)
                &&& final(self)@ == old(self)@
                &&& final(self).issued() == old(self).issued()
            },
    {
        if self.slots.len() >= u32::MAX as usize {
            return Err(CryptoErrno::ResourceExhausted);
        }
        let ghost prev = self@;
        self.slots.push(Some(v));
        let h: u32 = self.slots.len() as u32;
        assert(self@ =~= prev.insert(h, v));
        Ok(h)
    }

    /// The resource that a live handle names.
    pub fn get(&self, h: u32) -> (r: Result<&T, CryptoErrno>)
        ensures
            self@.contains_key(h) ==> (r matches Ok(x) && *x == self@[h]),
            !self@.contains_key(h) ==> r == Err::<&T, CryptoErrno>(CryptoErrno::InvalidHandle),
    {
        if h == 0 || h as usize > self.slots.len() {
            return Err(CryptoErrno::InvalidHandle);
        }
        match &self.slots[(h - 1) as usize] {
            Some(x) => Ok(x),
            None => Err(CryptoErrno::InvalidHandle),
        }
    }

    /// Retires a live handle and hands back its resource; any other handle
    /// is refused and nothing changes.
    pub fn close(&mut self, h: u32) -> (r: Result<T, CryptoErrno>)
        ensures
            old(self)@.contains_key(h) ==> {
                &&& r == Ok::<T, CryptoErrno>(old(self)@[h])
                &&& final(self)@ == old(self)@.remove(h)
            },
            !old(self)@.contains_key(h) ==> {
                &&& r == Err::<T, CryptoErrno>(CryptoErrno::InvalidHandle)
                &&& final(self)@ == old(self)@
            },
            final(self).issued() == old(self).issued(),
    {
        if h == 0 || h as usize > self.slots.len() {
            return Err(CryptoErrno::InvalidHandle);
        }
        let ghost prev = self@;
        let mut out: Option<T> = None;
        std::mem::swap(&mut self.slots[(h - 1) as usize], &mut out);
        match out {
            Some(x) => {
                assert(self@ =~= prev.remove(h));
                Ok(x)
            },
            None => {
                assert(self.slots@ =~= old(self).slots@);
                Err(CryptoErrno::InvalidHandle)
            },
        }
    }

    /// Puts a resource back under a handle that was handed out and is not live,
    /// as after `close`.
    pub(crate) fn restore(&mut self, h: u32, v: T)
        requires
            1 <= h <= old(self).issued(),
            !old(self)@.contains_key(h),
        ensures
            final(self)@ == old(self)@.insert(h, v),
            final(self).issued() == old(self).issued(),
    {
        let ghost prev = self@;
        self.slots.set((h - 1) as usize, Some(v));
        assert(self@ =~= prev.insert(h, v));
    }
}

} // verus!
