use vstd::prelude::*;

verus! {

/// A fixed-size byte region handed out by the per-connection memory pool.
///
/// `data` always has exactly the pool's buffer size; `len` is the logical
/// length, the number of valid bytes. The view of a buffer is the sequence
/// of its valid bytes.
#[derive(Debug)]
pub struct Buffer {
    pub data: Vec<u8>,
    pub len: usize,
}

impl View for Buffer {
    type V = Seq<u8>;

    open spec fn view(&self) -> Seq<u8> {
        self.data@.take(self.len as int)
    }
}

impl Buffer {
    /// Total capacity in bytes; fixed for the buffer's lifetime.
    pub open spec fn capacity(self) -> nat {
        self.data@.len()
    }

    /// The logical length never exceeds the capacity.
    pub open spec fn wf(self) -> bool {
        self.len <= self.data@.len()
    }

    /// A fresh zeroed buffer of the given capacity with logical length zero.
    pub fn new(capacity: usize) -> (r: Buffer)
        ensures
            r.wf(),
            r.capacity() == capacity,
            r@ == Seq::<u8>::empty(),
            r.len == 0,
    {
        let mut data: Vec<u8> = Vec::new();
        let mut i: usize = 0;
        while i < capacity
            invariant
                i <= capacity,
                data@.len() == i,
            decreases capacity - i,
        {
            data.push(0);
            i = i + 1;
        }
        proof {
            assert(data@.take(0) =~= Seq::<u8>::empty());
        }
        Buffer { data, len: 0 }
    }

    pub fn capacity_bytes(&self) -> (r: usize)
        ensures
            r == self.capacity(),
    {
        self.data.len()
    }

    pub fn length(&self) -> (r: usize)
        requires
            self.wf(),
        ensures
            r == self@.len(),
    {
        self.len
    }

    /// Write one byte, extending the logical length to cover it.
    pub fn write(&mut self, i: usize, v: u8)
        requires
            old(self).wf(),
            i < old(self).capacity(),
        ensures
            final(self).wf(),
            final(self).capacity() == old(self).capacity(),
            final(self).data@ == old(self).data@.update(i as int, v),
            final(self).len == if i + 1 > old(self).len {
                i + 1
            } else {
                old(self).len as int
            },
    {
        let cap = self.data.len();
        self.data.set(i, v);
        if i + 1 > self.len {
            self.len = i + 1;
        }
    }

    pub fn read(&self, i: usize) -> (r: u8)
        requires
            self.wf(),
            i < self@.len(),
        ensures
            r == self@[i as int],
    {
        self.data[i]
    }

    /// Set the logical length directly, leaving the stored bytes unchanged.
    pub fn set_length(&mut self, n: usize)
        requires
            old(self).wf(),
            n <= old(self).capacity(),
        ensures
            final(self).wf(),
            final(self).capacity() == old(self).capacity(),
            final(self).data == old(self).data,
            final(self).len == n,
    {
        self.len = n;
    }

    /// Copy of the valid bytes.
    pub fn to_vec(&self) -> (r: Vec<u8>)
        requires
            self.wf(),
        ensures
            r@ == self@,
    {
        let mut out: Vec<u8> = Vec::new();
        let mut i: usize = 0;
        while i < self.len
            invariant
                self.wf(),
                i <= self.len,
                out@ =~= self@.take(i as int),
            decreases self.len - i,
        {
            out.push(self.data[i]);
            i = i + 1;
        }
        proof {
            assert(out@ =~= self@);
        }
        out
    }
}

} // verus!
