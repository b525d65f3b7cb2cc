//! The frames that hold a process's paging structures, as the MMU code
//! reads and writes them: each frame is a table of 512 entries; and the
//! kernel's mapping pool, a run of page table entries.
use vstd::prelude::*;
use std::collections::HashMap;

verus! {

broadcast use vstd::std_specs::hash::group_hash_axioms;

/// Entries in one paging table.
pub const TABLE_ENTRIES: usize = 512;

/// A table with no entries set.
pub open spec fn zero_table() -> Seq<u64> {
    Seq::new(TABLE_ENTRIES as nat, |i: int| 0u64)
}

/// The entry `idx` of the table at `base`; a frame that holds no table
/// reads as zeroes.
pub open spec fn spec_read(m: Map<usize, Seq<u64>>, base: usize, idx: int) -> u64 {
    if m.dom().contains(base) && 0 <= idx < m[base].len() {
        m[base][idx]
    } else {
        0
    }
}

/// The paging tables, by the address of their frame.
pub struct PageTables {
    pub frames: HashMap<usize, Vec<u64>>,
}

impl PageTables {
    pub open spec fn mem(&self) -> Map<usize, Seq<u64>> {
        self.frames@.map_values(|v: Vec<u64>| v@)
    }

    pub open spec fn wf(&self) -> bool {
        forall|b: usize| #[trigger]
            self.mem().dom().contains(b) ==> self.mem()[b].len() == TABLE_ENTRIES
    }

    pub fn new() -> (t: Self)
        ensures
            t.wf(),
            t.mem() == Map::<usize, Seq<u64>>::empty(),
    {
        let t = PageTables { frames: HashMap::new() };
        assert(t.mem() =~= Map::<usize, Seq<u64>>::empty());
        t
    }

    /// Whether the frame at `base` holds a table.
    pub fn contains(&self, base: usize) -> (b: bool)
        ensures
            b == self.mem().dom().contains(base),
    {
        self.frames.get(&base).is_some()
    }

    /// Reads entry `idx` of the table at `base`.
    pub fn read(&self, base: usize, idx: usize) -> (v: u64)
        ensures
            v == spec_read(self.mem(), base, idx as int),
    {
        match self.frames.get(&base) {
            Some(t) => {
                if idx < t.len() {
                    t[idx]
                } else {
                    0
                }
            },
            None => 0,
        }
    }

    /// Writes entry `idx` of the table at `base`.
    pub fn write(&mut self, base: usize, idx: usize, val: u64)
        requires
            old(self).wf(),
            old(self).mem().dom().contains(base),
            idx < TABLE_ENTRIES,
        ensures
            final(self).wf(),
            final(self).mem() == old(self).mem().insert(base, old(self).mem()[base].update(
                idx as int,
                val,
            )),
    {
        let mut t: Vec<u64> = Vec::new();
        match self.frames.get(&base) {
            Some(cur) => {
                let mut i: usize = 0;
                while i < cur.len()
                    invariant
                        i <= cur@.len(),
                        t@ == cur@.subrange(0, i as int),
                    decreases cur@.len() - i,
                {
                    t.push(cur[i]);
                    i = i + 1;
                }
                assert(t@ =~= cur@);
            },
            None => {},
        }
        t.set(idx, val);
        self.frames.insert(base, t);
        assert(self.mem() =~= old(self).mem().insert(base, old(self).mem()[base].update(
            idx as int,
            val,
        )));
    }

    /// Makes the frame at `base` a table with no entries set.
    pub fn add_zeroed(&mut self, base: usize)
        requires
            old(self).wf(),
        ensures
            final(self).wf(),
            final(self).mem() == old(self).mem().insert(base, zero_table()),
    {
        let mut t: Vec<u64> = Vec::new();
        let mut i: usize = 0;
        while i < TABLE_ENTRIES
            invariant
                i <= TABLE_ENTRIES,
                t@ == Seq::new(i as nat, |k: int| 0u64),
            decreases TABLE_ENTRIES - i,
        {
            t.push(0);
            i = i + 1;
            assert(t@ =~= Seq::new(i as nat, |k: int| 0u64));
        }
        self.frames.insert(base, t);
        assert(self.mem() =~= old(self).mem().insert(base, zero_table()));
    }
}

// ---------------------------------------------------------------------------
// The kernel's mapping pool
// ---------------------------------------------------------------------------

/// The `n` entries from `v` are within the pool and none is in use (has a
/// bit of `used`).
pub open spec fn window_free(ptes: Seq<u64>, v: int, n: int, used: u64) -> bool {
    &&& 0 <= v && v + n <= ptes.len()
    &&& forall|w: int| v <= w < v + n ==> #[trigger] ptes[w] & used == 0
}

/// `v` starts the first free window of `n` entries.
pub open spec fn is_first_free_window(ptes: Seq<u64>, n: int, used: u64, v: int) -> bool {
    &&& window_free(ptes, v, n, used)
    &&& forall|u: int| 0 <= u < v ==> !window_free(ptes, u, n, used)
}

/// The pool after the `n` entries from `v` map the frames from
/// `phys_base` on, each with `flags`.
pub open spec fn spec_fill(ptes: Seq<u64>, v: int, phys_base: int, n: int, flags: u64) -> Seq<u64> {
    Seq::new(
        ptes.len(),
        |k: int|
            if v <= k < v + n {
                ((phys_base + (k - v) * 4096) as u64) | flags
            } else {
                ptes[k]
            },
    )
}

/// The pool after the `n` entries from `start` are cleared.
pub open spec fn spec_clear(ptes: Seq<u64>, start: int, n: int) -> Seq<u64> {
    Seq::new(ptes.len(), |k: int| if start <= k < start + n { 0u64 } else { ptes[k] })
}

/// The page table entries of the kernel's mapping pool, one per page of
/// the pool, in address order.
pub struct KernelPool {
    pub ptes: Vec<u64>,
}

impl KernelPool {
    /// A pool of `pages` pages, none mapped.
    pub fn new(pages: usize) -> (p: Self)
        ensures
            p.ptes@.len() == pages,
            forall|k: int| 0 <= k < pages ==> #[trigger] p.ptes@[k] == 0,
    {
        let mut v: Vec<u64> = Vec::new();
        let mut i: usize = 0;
        while i < pages
            invariant
                i <= pages,
                v@.len() == i,
                forall|k: int| 0 <= k < i ==> #[trigger] v@[k] == 0,
            decreases pages - i,
        {
            v.push(0);
            i = i + 1;
        }
        KernelPool { ptes: v }
    }

    /// The first run of `n` entries (within the pool) none of which is in
    /// use.
    pub fn find_window(&self, n: usize, used: u64) -> (r: Option<usize>)
        ensures
            r matches Some(v) ==> is_first_free_window(self.ptes@, n as int, used, v as int),
            r is None ==> forall|v: int| !window_free(self.ptes@, v, n as int, used),
    {
        let len = self.ptes.len();
        if n > len {
            return None;
        }
        let mut v: usize = 0;
        while v <= len - n
            invariant
                n <= len,
                len == self.ptes@.len(),
                v <= len - n + 1,
                forall|u: int| 0 <= u < v ==> !window_free(self.ptes@, u, n as int, used),
            decreases len - n + 1 - v,
        {
            let mut w: usize = 0;
            let mut free = true;
            while w < n && free
                invariant
                    w <= n,
                    v + n <= len,
                    len == self.ptes@.len(),
                    free ==> forall|k: int| v <= k < v + w ==> #[trigger] self.ptes@[k] & used == 0,
                    !free ==> !window_free(self.ptes@, v as int, n as int, used),
                decreases n - w + if free { 1int } else { 0int },
            {
                if self.ptes[v + w] & used != 0 {
                    free = false;
                } else {
                    w = w + 1;
                }
            }
            if free {
                return Some(v);
            }
            v = v + 1;
        }
        proof {
            assert forall|u: int| !window_free(self.ptes@, u, n as int, used) by {
                if 0 <= u && u + n <= len {
                    assert(u < v);
                }
            }
        }
        None
    }

    /// Maps the `n` entries from `v` to the frames from `phys_base` on.
    pub fn fill(&mut self, v: usize, phys_base: usize, n: usize, flags: u64)
        requires
            v + n <= old(self).ptes@.len(),
            phys_base + n * 4096 <= usize::MAX,
        ensures
            final(self).ptes@ == spec_fill(old(self).ptes@, v as int, phys_base as int, n as int, flags),
    {
        let len = self.ptes.len();
        let mut w: usize = 0;
        while w < n
            invariant
                w <= n,
                len == self.ptes@.len(),
                v + n <= self.ptes@.len(),
                phys_base + n * 4096 <= usize::MAX,
                self.ptes@.len() == old(self).ptes@.len(),
                forall|k: int|
                    0 <= k < self.ptes@.len() ==> #[trigger] self.ptes@[k] == if v <= k < v + w {
                        ((phys_base + (k - v) * 4096) as u64) | flags
                    } else {
                        old(self).ptes@[k]
                    },
            decreases n - w,
        {
            assert(phys_base + w * 4096 <= phys_base + n * 4096) by (nonlinear_arith)
                requires
                    w < n,
            ;
            let paddr = (phys_base + w * 4096) as u64;
            self.ptes.set(v + w, paddr | flags);
            w = w + 1;
        }
        assert(self.ptes@ =~= spec_fill(old(self).ptes@, v as int, phys_base as int, n as int, flags));
    }

    /// Clears the `n` entries from `start`.
    pub fn clear(&mut self, start: usize, n: usize)
        requires
            start + n <= old(self).ptes@.len(),
        ensures
            final(self).ptes@ == spec_clear(old(self).ptes@, start as int, n as int),
    {
        let len = self.ptes.len();
        let mut w: usize = 0;
        while w < n
            invariant
                w <= n,
                len == self.ptes@.len(),
                start + n <= self.ptes@.len(),
                self.ptes@.len() == old(self).ptes@.len(),
                forall|k: int|
                    0 <= k < self.ptes@.len() ==> #[trigger] self.ptes@[k] == if start <= k < start + w {
                        0u64
                    } else {
                        old(self).ptes@[k]
                    },
            decreases n - w,
        {
            self.ptes.set(start + w, 0);
            w = w + 1;
        }
        assert(self.ptes@ =~= spec_clear(old(self).ptes@, start as int, n as int));
    }
}

/// Clearing what was filled frees those entries again and leaves the others
/// as they were.
pub proof fn lemma_fill_then_clear(ptes: Seq<u64>, v: int, phys_base: int, n: int, flags: u64)
    requires
        0 <= v,
        v + n <= ptes.len(),
    ensures
        forall|k: int|
            0 <= k < ptes.len() ==> #[trigger] spec_clear(spec_fill(ptes, v, phys_base, n, flags), v, n)[k]
                == if v <= k < v + n { 0u64 } else { ptes[k] },
        window_free(spec_clear(spec_fill(ptes, v, phys_base, n, flags), v, n), v, n, u64::MAX),
{
    let c = spec_clear(spec_fill(ptes, v, phys_base, n, flags), v, n);
    assert forall|w: int| v <= w < v + n implies #[trigger] c[w] & u64::MAX == 0 by {
        assert(c[w] == 0);
        assert(0u64 & u64::MAX == 0) by (bit_vector);
    }
}

/// The first free window of `n` entries, if there is one.
pub open spec fn spec_first_window(ptes: Seq<u64>, n: int, used: u64) -> Option<int> {
    if exists|v: int| window_free(ptes, v, n, used) {
        Some(choose|v: int| is_first_free_window(ptes, n, used, v))
    } else {
        None
    }
}

/// A first free window is the one `spec_first_window` names.
pub proof fn lemma_first_window_is(ptes: Seq<u64>, n: int, used: u64, v: int)
    requires
        is_first_free_window(ptes, n, used, v),
    ensures
        spec_first_window(ptes, n, used) == Some(v),
{
    let c = choose|u: int| is_first_free_window(ptes, n, used, u);
    assert(is_first_free_window(ptes, n, used, c));
    if c < v {
        assert(!window_free(ptes, c, n, used));
    } else if v < c {
        assert(!window_free(ptes, v, n, used));
    }
}

impl KernelPool {
    /// Maps `n` frames from `phys_base` with `flags` into the first run of
    /// entries none of which has a bit of `used`; returns the run's first
    /// entry, or none when no run is free (nothing then changes).
    pub fn map_first_window(&mut self, phys_base: usize, n: usize, used: u64, flags: u64) -> (r: Option<usize>)
        requires
            phys_base + n * 4096 <= usize::MAX,
        ensures
            r matches Some(v) ==> spec_first_window(old(self).ptes@, n as int, used) == Some(v as int)
                && v + n <= old(self).ptes@.len()
                && final(self).ptes@ == spec_fill(old(self).ptes@, v as int, phys_base as int, n as int, flags),
            r is None ==> spec_first_window(old(self).ptes@, n as int, used) is None
                && final(self).ptes@ == old(self).ptes@,
    {
        match self.find_window(n, used) {
            Some(v) => {
                proof { lemma_first_window_is(self.ptes@, n as int, used, v as int); }
                self.fill(v, phys_base, n, flags);
                Some(v)
            },
            None => None,
        }
    }
}

} // verus!
