//! Fixed-capacity recency buffer for visible lines.
//!
//! The buffer is a bounded first-in-first-out queue: pushing into a full
//! buffer evicts the oldest entry first, so the buffer always holds the
//! most recent lines, oldest first. A capacity of zero is legal and makes
//! the buffer permanently empty.

use std::collections::VecDeque;
use vstd::prelude::*;

verus! {

/// The contents of a recency buffer of capacity `cap` after pushing `v`
/// into a buffer holding `q`: unchanged when the capacity is zero,
/// otherwise `v` is appended after evicting the oldest entry if the
/// buffer is full.
pub open spec fn push_model(q: Seq<Seq<char>>, v: Seq<char>, cap: nat) -> Seq<Seq<char>> {
    if cap == 0 {
        q
    } else if q.len() >= cap {
        q.drop_first().push(v)
    } else {
        q.push(v)
    }
}

/// The last `max` elements of `s`, in order; all of `s` when it is
/// shorter than that.
pub open spec fn last_n(s: Seq<Seq<char>>, max: nat) -> Seq<Seq<char>> {
    if s.len() <= max {
        s
    } else {
        s.skip(s.len() - max)
    }
}

/// A bounded queue of visible lines that evicts its oldest entry when a
/// push would exceed the capacity fixed at construction.
pub struct RecencyBuffer {
    items: VecDeque<String>,
    capacity: usize,
}

impl RecencyBuffer {
    /// The lines currently held, oldest first.
    pub closed spec fn view(&self) -> Seq<Seq<char>> {
        self.items@.map_values(|s: String| s@)
    }

    /// The capacity fixed at construction.
    pub closed spec fn cap(&self) -> nat {
        self.capacity as nat
    }

    /// The buffer never holds more lines than its capacity.
    pub open spec fn wf(&self) -> bool {
        self.view().len() <= self.cap()
    }

    /// An empty buffer that will never hold more than `capacity` lines.
    pub fn new(capacity: usize) -> (r: Self)
        ensures
            r.view() == Seq::<Seq<char>>::empty(),
            r.cap() == capacity,
            r.wf(),
    {
        let r = RecencyBuffer { items: VecDeque::new(), capacity };
        proof {
            assert(r.view() =~= Seq::<Seq<char>>::empty());
        }
        r
    }

    /// Append `line` at the newest end, evicting the oldest entry first
    /// when the buffer is full; a zero-capacity buffer stays empty.
    pub fn push(&mut self, line: String)
        requires
            old(self).wf(),
        ensures
            final (self).view() == push_model(old(self).view(), line@, old(self).cap()),
            final (self).cap() == old(self).cap(),
            final (self).wf(),
    {
        if self.capacity == 0 {
            return ;
        }
        if self.items.len() == self.capacity {
            let ghost before = self.items@;
            self.items.pop_front();
            proof {
                assert(self.items@.map_values(|s: String| s@) =~= before.map_values(
                    |s: String| s@,
                ).drop_first());
            }
        }
        let ghost mid = self.items@;
        self.items.push_back(line);
        proof {
            assert(self.items@.map_values(|s: String| s@) =~= mid.map_values(
                |s: String| s@,
            ).push(line@));
        }
    }

    /// Hand the held lines out, oldest first.
    pub fn into_lines(self) -> (r: Vec<String>)
        ensures
            r.deep_view() == self.view(),
    {
        let mut q = self.items;
        let mut out: Vec<String> = Vec::new();
        let ghost all = q@;
        proof {
            assert(out.deep_view() =~= all.map_values(|s: String| s@).take(0));
            assert(all.skip(0) =~= all);
        }
        while q.len() > 0
            invariant
                out@.len() <= all.len(),
                q@ == all.skip(out@.len() as int),
                out.deep_view() == all.map_values(|s: String| s@).take(out@.len() as int),
            decreases q@.len(),
        {
            let ghost done = out@.len() as int;
            let s = match q.pop_front() {
                Some(s) => s,
                None => {
                    proof {
                        assert(false);
                    }
                    String::new()
                },
            };
            proof {
                assert(all.skip(done)[0] == all[done]);
                assert(all.skip(done).subrange(1, all.skip(done).len() as int) =~= all.skip(
                    done + 1,
                ));
            }
            out.push(s);
            proof {
                assert(out.deep_view() =~= all.map_values(|s: String| s@).take(done + 1));
            }
        }
        proof {
            assert(out@.len() == all.len());
            assert(all.map_values(|s: String| s@).take(all.len() as int) =~= all.map_values(
                |s: String| s@,
            ));
        }
        out
    }
}

} // verus!
