//! The connection registry: the set of live output endpoints, keyed by a
//! stable handle that a monotonic counter hands out and never reuses, so
//! removal from two independent call sites (read-side EOF, write-side
//! failure) can never confuse one connection with another.

use vstd::prelude::*;

verus! {

pub struct Registry {
    pub conns: Vec<u64>,
    pub next_handle: u64,
}

impl Registry {
    /// Registered handles, in registration order.
    pub open spec fn model(self) -> Seq<u64> {
        self.conns@
    }

    /// Handles pairwise distinct and all below the counter.
    pub open spec fn wf(self) -> bool {
        &&& forall|i: int, j: int|
            0 <= i < self.conns@.len() && 0 <= j < self.conns@.len() && i != j
                ==> self.conns@[i] != self.conns@[j]
        &&& forall|i: int| 0 <= i < self.conns@.len() ==> #[trigger] self.conns@[i] < self.next_handle
    }

    pub fn new() -> (r: Registry)
        ensures
            r.wf(),
            r.model().len() == 0,
            r.next_handle == 1,
    {
        Registry { conns: Vec::new(), next_handle: 1 }
    }

    /// Register a new connection; the returned handle is fresh: distinct
    /// from every handle ever returned before. `None` only once the
    /// counter is exhausted.
    pub fn register(&mut self) -> (r: Option<u64>)
        requires
            old(self).wf(),
        ensures
            final(self).wf(),
            match r {
                Some(h) => {
                    &&& h == old(self).next_handle
                    &&& !old(self).model().contains(h)
                    &&& final(self).model() == old(self).model().push(h)
                    &&& final(self).next_handle == old(self).next_handle + 1
                    &&& old(self).next_handle < u64::MAX
                },
                None => {
                    &&& old(self).next_handle == u64::MAX
                    &&& *final(self) == *old(self)
                },
            },
    {
        if self.next_handle == u64::MAX {
            return None;
        }
        let h = self.next_handle;
        proof {
            if self.conns@.contains(h) {
                let i = choose|i: int| 0 <= i < self.conns@.len() && self.conns@[i] == h;
                assert(self.conns@[i] < self.next_handle);
            }
        }
        self.conns.push(h);
        self.next_handle = h + 1;
        Some(h)
    }

    /// Whether `h` is currently registered.
    pub fn contains(&self, h: u64) -> (r: bool)
        ensures
            r == self.model().contains(h),
    {
        let mut i: usize = 0;
        while i < self.conns.len()
            invariant
                i <= self.conns@.len(),
                forall|j: int| 0 <= j < i ==> self.conns@[j] != h,
            decreases self.conns@.len() - i,
        {
            if self.conns[i] == h {
                return true;
            }
            i += 1;
        }
        proof {
            if self.conns@.contains(h) {
                let j = choose|j: int| 0 <= j < self.conns@.len() && self.conns@[j] == h;
                assert(self.conns@[j] == h);
            }
        }
        false
    }

    /// Remove `h`. Afterwards `h` is gone for good; every other handle's
    /// membership, and the relative order of the rest, is untouched.
    #[verifier::loop_isolation(false)]
    pub fn unregister(&mut self, h: u64)
        requires
            old(self).wf(),
        ensures
            final(self).wf(),
            final(self).next_handle == old(self).next_handle,
            !final(self).model().contains(h),
            old(self).model().contains(h) ==> exists|i: int|
                0 <= i < old(self).model().len() && old(self).model()[i] == h
                    && final(self).model() == old(self).model().remove(i),
            !old(self).model().contains(h) ==> final(self).model() == old(self).model(),
            forall|c: u64| c != h
                ==> (final(self).model().contains(c) <==> old(self).model().contains(c)),
    {
        let mut i: usize = 0;
        while i < self.conns.len()
            invariant
                i <= self.conns@.len(),
                self.conns@ == old(self).conns@,
                self.next_handle == old(self).next_handle,
                forall|j: int| 0 <= j < i ==> self.conns@[j] != h,
            decreases self.conns@.len() - i,
        {
            if self.conns[i] == h {
                self.conns.remove(i);
                proof {
                    let pre = old(self).model();
                    let post = self.model();
                    assert(post == pre.remove(i as int));
                    assert forall|k: int| 0 <= k < post.len() implies post[k] != h by {
                        if k < i {
                            assert(post[k] == pre[k]);
                        } else {
                            assert(post[k] == pre[k + 1]);
                        }
                    }
                    assert(!post.contains(h));
                    assert forall|c: u64| c != h && pre.contains(c) implies post.contains(c) by {
                        let j = choose|j: int| 0 <= j < pre.len() && pre[j] == c;
                        if j < i {
                            assert(post[j] == c);
                        } else {
                            assert(j != i);
                            assert(post[j - 1] == c);
                        }
                    }
                    assert forall|c: u64| c != h && post.contains(c) implies pre.contains(c) by {
                        let j = choose|j: int| 0 <= j < post.len() && post[j] == c;
                        if j < i {
                            assert(pre[j] == c);
                        } else {
                            assert(pre[j + 1] == c);
                        }
                    }
                }
                return;
            }
            i += 1;
        }
        proof {
            if self.conns@.contains(h) {
                let j = choose|j: int| 0 <= j < self.conns@.len() && self.conns@[j] == h;
                assert(self.conns@[j] == h);
            }
        }
    }

    /// The handles to deliver one broadcast to: exactly the live ones,
    /// in registration order.
    pub fn members(&self) -> (r: Vec<u64>)
        ensures
            r@ == self.model(),
    {
        let mut out: Vec<u64> = Vec::new();
        let mut i: usize = 0;
        while i < self.conns.len()
            invariant
                i <= self.conns@.len(),
                out@ == self.conns@.subrange(0, i as int),
            decreases self.conns@.len() - i,
        {
            out.push(self.conns[i]);
            i += 1;
        }
        proof {
            assert(out@ =~= self.conns@);
        }
        out
    }
}

} // verus!
