//! Page table frames held in ordinary memory.
//!
//! A `TableStore` keeps the frames that were written in a vector. A frame
//! that was never written reads as zeros, as fresh memory does.

use crate::addr::{Page, PhysFrame};
use crate::paging::PhysicalMemory;
use vstd::prelude::*;

verus! {

/// The position of `frame` in `frames`, if it occurs there.
pub open spec fn position(frames: Seq<u64>, frame: int) -> Option<int> {
    if exists|k: int| 0 <= k < frames.len() && frames[k] == frame {
        Some(choose|k: int| 0 <= k < frames.len() && frames[k] == frame)
    } else {
        None
    }
}

/// Page table frames, and a record of the pages that were flushed.
#[derive(Debug)]
pub struct TableStore {
    frames: Vec<u64>,
    entries: Vec<u64>,
    flushed: Vec<u64>,
}

impl TableStore {
    /// A store in which every frame reads as zeros and no page was flushed.
    pub fn new() -> (s: TableStore)
        ensures
            s.wf(),
            s.flushed() == Seq::<int>::empty(),
            forall|f: int, i: int| #[trigger] s.entry(f, i) == 0,
    {
        let s = TableStore { frames: Vec::new(), entries: Vec::new(), flushed: Vec::new() };
        assert(s.flushed() =~= Seq::<int>::empty());
        s
    }

    /// The position of `frame` among the frames that were written.
    fn find(&self, frame: u64) -> (r: Option<usize>)
        requires
            self.wf(),
        ensures
            r matches Some(k) ==> position(self.frames@, frame as int) == Some(k as int) && k
                < self.frames@.len() && k * 512 + 512 <= usize::MAX,
            r is None ==> position(self.frames@, frame as int) is None,
    {
        let count = self.entries.len() / 512;
        let mut k: usize = 0;
        while k < count
            invariant
                k <= count,
                count == self.frames@.len(),
                count * 512 <= usize::MAX,
                self.wf(),
                forall|j: int| 0 <= j < k ==> self.frames@[j] != frame,
            decreases count - k,
        {
            if self.frames[k] == frame {
                return Some(k);
            }
            k += 1;
        }
        None
    }

    /// Takes in a frame that was not written before, filled with zeros.
    fn add_frame(&mut self, start: u64)
        requires
            old(self).wf(),
            position(old(self).frames@, start as int) is None,
        ensures
            final(self).wf(),
            final(self).flushed@ == old(self).flushed@,
            position(final(self).frames@, start as int) is Some,
            forall|f: int, i: int| #[trigger] final(self).entry(f, i) == old(self).entry(f, i),
    {
        let ghost k = self.frames@.len();
        self.frames.push(start);
        let mut i: usize = 0;
        while i < 512
            invariant
                i <= 512,
                k == old(self).frames@.len(),
                self.frames@ == old(self).frames@.push(start),
                self.flushed@ == old(self).flushed@,
                self.entries@.len() == k * 512 + i,
                forall|j: int|
                    0 <= j < old(self).entries@.len() ==> self.entries@[j] == old(self).entries@[j],
                forall|j: int| k * 512 <= j < self.entries@.len() ==> self.entries@[j] == 0,
                old(self).entries@.len() == k * 512,
            decreases 512 - i,
        {
            self.entries.push(0);
            i += 1;
        }
        proof {
            assert(self.frames@[k as int] == start);
            assert forall|f: int, i: int| #[trigger] self.entry(f, i) == old(self).entry(f, i) by {
                if f == start {
                    assert(position(self.frames@, f) == Some(k as int));
                } else if position(old(self).frames@, f) is Some {
                    let j = position(old(self).frames@, f).unwrap();
                    assert(self.frames@[j] == f);
                    assert(position(self.frames@, f) == Some(j));
                } else {
                    if position(self.frames@, f) is Some {
                        let j = position(self.frames@, f).unwrap();
                        assert(j < k);
                        assert(old(self).frames@[j] == f);
                    }
                }
            }
        }
    }

    /// The pages that were flushed, oldest first.
    pub fn flushed_pages(&self) -> (pages: &Vec<u64>)
        ensures
            pages@.len() == self.flushed().len(),
            forall|i: int| 0 <= i < pages@.len() ==> pages@[i] == self.flushed()[i],
    {
        &self.flushed
    }
}

impl PhysicalMemory for TableStore {
    closed spec fn wf(&self) -> bool {
        &&& self.entries@.len() == self.frames@.len() * 512
        &&& forall|j: int, k: int|
            0 <= j < k < self.frames@.len() ==> self.frames@[j] != self.frames@[k]
    }

    closed spec fn entry(&self, frame: int, index: int) -> u64 {
        match position(self.frames@, frame) {
            Some(k) => if 0 <= index < 512 {
                self.entries@[k * 512 + index]
            } else {
                0
            },
            None => 0,
        }
    }

    closed spec fn flushed(&self) -> Seq<int> {
        Seq::new(self.flushed@.len(), |i: int| self.flushed@[i] as int)
    }

    fn read_entry(&self, frame: PhysFrame, index: u16) -> (e: u64) {
        match self.find(frame.start_u64()) {
            Some(k) => self.entries[k * 512 + index as usize],
            None => 0,
        }
    }

    fn write_entry(&mut self, frame: PhysFrame, index: u16, value: u64) {
        let start = frame.start_u64();
        if self.find(start).is_none() {
            self.add_frame(start);
        }
        let ghost middle = *self;
        match self.find(start) {
            Some(k) => {
                self.entries.set(k * 512 + index as usize, value);
                proof {
                    assert forall|f: int, i: int| #[trigger]
                        self.entry(f, i) == if f == frame@ && i == index {
                            value
                        } else {
                            old(self).entry(f, i)
                        } by {
                        assert(middle.entry(f, i) == old(self).entry(f, i));
                        if position(self.frames@, f) is Some {
                            let j = position(self.frames@, f).unwrap();
                            if j != k {
                                assert(self.frames@[j] != self.frames@[k as int]);
                            }
                        }
                    }
                    assert(self.flushed() =~= old(self).flushed());
                }
            },
            None => {
                assert(false);
            },
        }
    }

    fn flush(&mut self, page: Page) {
        let start = page.start_address().as_u64();
        self.flushed.push(start);
        proof {
            assert(self.flushed() =~= old(self).flushed().push(page@));
        }
    }
}

} // verus!
