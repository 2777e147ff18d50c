//! Ordered reassembly: workers hand in frames in the order in which they
//! finish, and the writer takes them out in the order of the input.
//!
//! The buffer is a fixed array of slots, one for each chunk of a window;
//! the frame of chunk `id` waits in slot `id % window`. No more than a
//! window of frames is ever held.

use crate::container::frames_view;
use crate::error::{configuration, CompressionError, ErrorView};
use vstd::prelude::*;

verus! {

/// The reassembly buffer.
pub struct Reassembly {
    slots: Vec<Option<Vec<u8>>>,
    next: u64,
}

/// Two chunks of one window do not share a slot.
proof fn lemma_distinct_slots(a: int, b: int, window: int)
    requires
        window > 0,
        a != b,
        -window < a - b < window,
    ensures
        a % window != b % window,
{
    if a % window == b % window {
        vstd::arithmetic::div_mod::lemma_mod_equivalence(a, b, window);
        vstd::arithmetic::div_mod::lemma_mod_equivalence(b, a, window);
        if a > b {
            vstd::arithmetic::div_mod::lemma_small_mod((a - b) as nat, window as nat);
        } else {
            vstd::arithmetic::div_mod::lemma_small_mod((b - a) as nat, window as nat);
        }
    }
}

/// The chunk a window further on shares the slot.
proof fn lemma_same_slot(a: int, window: int)
    requires
        window > 0,
    ensures
        (a + window) % window == a % window,
{
    vstd::arithmetic::div_mod::lemma_mod_multiples_vanish(1, a, window);
    assert(window * 1 + a == a + window);
}

impl Reassembly {
    /// The number of slots.
    pub closed spec fn window(&self) -> int {
        self.slots@.len() as int
    }

    /// The number of the chunk that leaves next.
    pub closed spec fn next(&self) -> int {
        self.next as int
    }

    /// The slot in which the frame of chunk `id` waits.
    pub closed spec fn slot(&self, id: int) -> Option<Vec<u8>> {
        self.slots@[id % (self.slots@.len() as int)]
    }

    /// The frames that wait, by chunk number.
    pub closed spec fn pending(&self) -> Map<int, Seq<u8>> {
        Map::new(
            |id: int| self.next() <= id < self.next() + self.window() && self.slot(id) is Some,
            |id: int| self.slot(id)->Some_0@,
        )
    }

    /// The buffer has a slot, and no slot holds a frame for a chunk number
    /// beyond the 32 bits that chunk numbers have.
    pub closed spec fn wf(&self) -> bool {
        &&& self.window() > 0
        &&& self.next() <= u32::MAX + 1
        &&& forall|id: int|
            self.next() <= id < self.next() + self.window() && id > u32::MAX ==> self.slot(id)
                is None
    }

    /// An empty buffer of `window` slots that begins at chunk 0. A window
    /// of no slots is refused with `Configuration`.
    pub fn new(window: usize) -> (r: Result<Reassembly, CompressionError>)
        ensures
            match r {
                Ok(buffer) => {
                    &&& window > 0
                    &&& buffer.wf()
                    &&& buffer.window() == window
                    &&& buffer.next() == 0
                    &&& buffer.pending() == Map::<int, Seq<u8>>::empty()
                },
                Err(e) => window == 0 && e@ == (ErrorView::Configuration {
                    message: "Window must be positive"@,
                }),
            },
    {
        if window == 0 {
            return Err(configuration("Window must be positive"));
        }
        let mut slots: Vec<Option<Vec<u8>>> = Vec::new();
        let mut i: usize = 0;
        while i < window
            invariant
                i <= window,
                slots@.len() == i,
                forall|j: int| 0 <= j < i ==> slots@[j] is None,
            decreases window - i,
        {
            slots.push(None);
            i += 1;
        }
        let buffer = Reassembly { slots, next: 0 };
        proof {
            assert forall|id: int| buffer.slot(id) is None by {
                vstd::arithmetic::div_mod::lemma_mod_bound(id, window as int);
            }
            assert(buffer.pending() =~= Map::<int, Seq<u8>>::empty());
        }
        Ok(buffer)
    }

    /// Whether chunk `chunk_id` lies in the window, so that its frame can
    /// be taken in: no worker should start on a chunk before it does.
    pub fn admits(&self, chunk_id: u32) -> (in_window: bool)
        requires
            self.wf(),
        ensures
            in_window == (self.next() <= chunk_id < self.next() + self.window()),
    {
        let id = chunk_id as u64;
        id >= self.next && id - self.next < self.slots.len() as u64
    }

    /// Takes in the frame of chunk `chunk_id`. A chunk outside the window,
    /// and one whose frame waits already, are refused with `Configuration`
    /// and change nothing.
    pub fn accept(&mut self, chunk_id: u32, frame: Vec<u8>) -> (r: Result<(), CompressionError>)
        requires
            old(self).wf(),
        ensures
            final(self).wf(),
            final(self).window() == old(self).window(),
            final(self).next() == old(self).next(),
            match r {
                Ok(()) => {
                    &&& old(self).next() <= chunk_id < old(self).next() + old(self).window()
                    &&& !old(self).pending().dom().contains(chunk_id as int)
                    &&& final(self).pending() == old(self).pending().insert(
                        chunk_id as int,
                        frame@,
                    )
                },
                Err(e) => {
                    &&& final(self).pending() == old(self).pending()
                    &&& if old(self).next() <= chunk_id < old(self).next() + old(self).window() {
                        old(self).pending().dom().contains(chunk_id as int) && e@ == (
                        ErrorView::Configuration { message: "Chunk was handed in twice"@ })
                    } else {
                        e@ == (ErrorView::Configuration { message: "Chunk outside the window"@ })
                    }
                },
            },
    {
        let window = self.slots.len() as u64;
        let id = chunk_id as u64;
        if id < self.next || id - self.next >= window {
            return Err(configuration("Chunk outside the window"));
        }
        let at = (id % window) as usize;
        if self.slots[at].is_some() {
            return Err(configuration("Chunk was handed in twice"));
        }
        self.slots.set(at, Some(frame));
        proof {
            let w = window as int;
            assert forall|other: int|
                old(self).next() <= other < old(self).next() + w && other
                    != chunk_id implies self.slot(other) == old(self).slot(other) by {
                lemma_distinct_slots(other, chunk_id as int, w);
                vstd::arithmetic::div_mod::lemma_mod_bound(other, w);
            }
            assert(self.pending() =~= old(self).pending().insert(chunk_id as int, frame@));
        }
        Ok(())
    }

    /// Takes out the frame of the next chunk if it waits; the window then
    /// moves on by one chunk.
    pub fn pop_ready(&mut self) -> (r: Option<Vec<u8>>)
        requires
            old(self).wf(),
        ensures
            final(self).wf(),
            final(self).window() == old(self).window(),
            match r {
                Some(frame) => {
                    &&& old(self).pending().dom().contains(old(self).next())
                    &&& frame@ == old(self).pending()[old(self).next()]
                    &&& final(self).next() == old(self).next() + 1
                    &&& final(self).pending() == old(self).pending().remove(old(self).next())
                },
                None => {
                    &&& !old(self).pending().dom().contains(old(self).next())
                    &&& final(self).next() == old(self).next()
                    &&& final(self).pending() == old(self).pending()
                },
            },
    {
        let window = self.slots.len() as u64;
        let at = (self.next % window) as usize;
        if self.slots[at].is_none() {
            return None;
        }
        // Put an empty slot in the place of the full one.
        self.slots.push(None);
        let taken = self.slots.swap_remove(at);
        self.next = self.next + 1;
        proof {
            let w = window as int;
            let first = old(self).next();
            assert(self.slots@ =~= old(self).slots@.update(at as int, None));
            lemma_same_slot(first, w);
            assert forall|other: int| first < other < first + w implies self.slot(other) == old(
                self,
            ).slot(other) by {
                lemma_distinct_slots(other, first, w);
                vstd::arithmetic::div_mod::lemma_mod_bound(other, w);
            }
            assert(self.pending() =~= old(self).pending().remove(first));
        }
        taken
    }

    /// Moves every frame that is ready to the end of `out`: the frames of
    /// the next chunk and of those that follow it without a gap, in the
    /// order of their numbers. What waits behind a gap stays.
    pub fn drain_ready(&mut self, out: &mut Vec<Vec<u8>>)
        requires
            old(self).wf(),
        ensures
            final(self).wf(),
            final(self).window() == old(self).window(),
            old(self).next() <= final(self).next(),
            forall|id: int|
                old(self).next() <= id < final(self).next() ==> old(self).pending().dom().contains(
                    id,
                ),
            !old(self).pending().dom().contains(final(self).next()),
            frames_view(final(out)@) == frames_view(old(out)@) + Seq::new(
                (final(self).next() - old(self).next()) as nat,
                |k: int| old(self).pending()[old(self).next() + k],
            ),
            final(self).pending() == old(self).pending().remove_keys(
                Set::new(|id: int| old(self).next() <= id < final(self).next()),
            ),
    {
        let ghost first = self.next();
        let ghost waiting = self.pending();
        proof {
            assert(frames_view(out@) =~= frames_view(old(out)@) + Seq::new(
                0,
                |k: int| waiting[first + k],
            ));
            assert(self.pending() =~= waiting.remove_keys(
                Set::new(|id: int| first <= id < self.next()),
            ));
        }
        loop
            invariant
                self.wf(),
                self.window() == old(self).window(),
                first == old(self).next(),
                waiting == old(self).pending(),
                first <= self.next(),
                self.next() <= u32::MAX + 1,
                forall|id: int| first <= id < self.next() ==> waiting.dom().contains(id),
                frames_view(out@) == frames_view(old(out)@) + Seq::new(
                    (self.next() - first) as nat,
                    |k: int| waiting[first + k],
                ),
                self.pending() == waiting.remove_keys(
                    Set::new(|id: int| first <= id < self.next()),
                ),
            ensures
                !waiting.dom().contains(self.next()),
            decreases u32::MAX + 1 - self.next(),
        {
            let ghost before = self.next();
            let ghost gathered = frames_view(out@);
            match self.pop_ready() {
                None => {
                    break ;
                },
                Some(frame) => {
                    proof {
                        assert(frames_view(out@.push(frame)) =~= gathered + seq![frame@]);
                        assert(gathered + seq![frame@] =~= frames_view(old(out)@) + Seq::new(
                            (before + 1 - first) as nat,
                            |k: int| waiting[first + k],
                        ));
                        assert(self.pending() =~= waiting.remove_keys(
                            Set::new(|id: int| first <= id < before + 1),
                        ));
                    }
                    out.push(frame);
                },
            }
        }
    }
}

} // verus!
