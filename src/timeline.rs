use vstd::prelude::*;
use crate::time::{Duration, Instant};

verus! {

/// A fraction `num / den`.
#[derive(Clone, Copy, Debug, PartialEq, Eq, Structural)]
pub struct Ratio {
    pub num: u32,
    pub den: u32,
}

/// A sequence of timed blocks, each holding its own content, and a playhead.
pub struct Timeline<T> {
    /// The playhead, in milliseconds from the start of the first block.
    pub caret: Instant,
    pub fps: u32,
    pub blocks: Vec<(Duration, T)>,
}

/// The sum of the blocks' durations, in milliseconds.
pub open spec fn total_millis<T>(blocks: Seq<(Duration, T)>) -> nat
    decreases blocks.len(),
{
    if blocks.len() == 0 {
        0
    } else {
        total_millis(blocks.drop_last()) + blocks.last().0.millis as nat
    }
}

/// Where block `i` starts: the sum of the durations before it.
pub open spec fn start_of<T>(blocks: Seq<(Duration, T)>, i: int) -> nat {
    total_millis(blocks.take(i))
}

/// Block `i` is the one under position `caret`.
pub open spec fn is_selected<T>(blocks: Seq<(Duration, T)>, caret: nat, i: int) -> bool {
    &&& 0 <= i < blocks.len()
    &&& start_of(blocks, i) <= caret
    &&& caret < start_of(blocks, i + 1)
}

/// The playhead position brought into `[0, total)`, or to 0 when the
/// timeline is empty.
pub open spec fn clamped(caret: nat, total: nat) -> nat {
    if caret < total {
        caret
    } else if total > 0 {
        (total - 1) as nat
    } else {
        0
    }
}

/// A clamped playhead lies inside a timeline that has any length at all.
pub proof fn lemma_clamped_in_range(caret: nat, total: nat)
    ensures
        total > 0 ==> clamped(caret, total) < total,
        total == 0 ==> clamped(caret, total) == 0,
{
}

pub proof fn lemma_start_step<T>(blocks: Seq<(Duration, T)>, i: int)
    requires
        0 <= i < blocks.len(),
    ensures
        start_of(blocks, i + 1) == start_of(blocks, i) + blocks[i].0.millis,
{
    assert(blocks.take(i + 1).drop_last() == blocks.take(i));
}

pub proof fn lemma_start_monotone<T>(blocks: Seq<(Duration, T)>, i: int, j: int)
    requires
        0 <= i <= j <= blocks.len(),
    ensures
        start_of(blocks, i) <= start_of(blocks, j),
        start_of(blocks, blocks.len() as int) == total_millis(blocks),
    decreases j - i,
{
    assert(blocks.take(blocks.len() as int) == blocks);
    if i < j {
        lemma_start_monotone(blocks, i, j - 1);
        lemma_start_step(blocks, j - 1);
    }
}

/// At most one block is under a given position.
pub proof fn lemma_selected_unique<T>(blocks: Seq<(Duration, T)>, caret: nat, i: int, j: int)
    requires
        is_selected(blocks, caret, i),
        is_selected(blocks, caret, j),
    ensures
        i == j,
{
    if i < j {
        lemma_start_monotone(blocks, i + 1, j);
    }
    if j < i {
        lemma_start_monotone(blocks, j + 1, i);
    }
}

impl<T> Timeline<T> {
    /// The total duration fits the millisecond counter.
    pub open spec fn wf(&self) -> bool {
        total_millis(self.blocks@) <= u32::MAX
    }

    pub open spec fn total(&self) -> nat {
        total_millis(self.blocks@)
    }

    pub fn new(fps: u32) -> (r: Timeline<T>)
        ensures
            r.caret.millis == 0,
            r.fps == fps,
            r.blocks@.len() == 0,
            r.wf(),
    {
        Timeline { caret: Instant::zero(), fps, blocks: Vec::new() }
    }

    /// The sum of all block durations.
    pub fn duration(&self) -> (r: Duration)
        requires
            self.wf(),
        ensures
            r.millis == self.total(),
    {
        let mut sum: u32 = 0;
        let mut i: usize = 0;
        while i < self.blocks.len()
            invariant
                self.wf(),
                i <= self.blocks@.len(),
                sum == start_of(self.blocks@, i as int),
            decreases self.blocks@.len() - i,
        {
            proof {
                lemma_start_step(self.blocks@, i as int);
                lemma_start_monotone(self.blocks@, i + 1, self.blocks@.len() as int);
            }
            sum = sum + self.blocks[i].0.millis;
            i = i + 1;
        }
        proof {
            lemma_start_monotone(self.blocks@, 0, self.blocks@.len() as int);
        }
        Duration::from_millis(sum)
    }

    /// The block under the playhead; `None` once the playhead is at or past
    /// the end.
    pub fn selected_index(&self) -> (r: Option<usize>)
        requires
            self.wf(),
        ensures
            match r {
                Some(i) => is_selected(self.blocks@, self.caret.millis as nat, i as int),
                None => self.caret.millis >= self.total(),
            },
    {
        match self.selected_span() {
            Some((i, _)) => Some(i),
            None => None,
        }
    }

    /// The block under the playhead and where it starts.
    fn selected_span(&self) -> (r: Option<(usize, u32)>)
        requires
            self.wf(),
        ensures
            match r {
                Some((i, s)) => is_selected(self.blocks@, self.caret.millis as nat, i as int) && s
                    == start_of(self.blocks@, i as int),
                None => self.caret.millis >= self.total(),
            },
    {
        let mut start: u32 = 0;
        let mut i: usize = 0;
        while i < self.blocks.len()
            invariant
                self.wf(),
                i <= self.blocks@.len(),
                start == start_of(self.blocks@, i as int),
                self.caret.millis >= start,
            decreases self.blocks@.len() - i,
        {
            proof {
                lemma_start_step(self.blocks@, i as int);
                lemma_start_monotone(self.blocks@, i + 1, self.blocks@.len() as int);
            }
            let end = start + self.blocks[i].0.millis;
            if self.caret.millis < end {
                return Some((i, start));
            }
            start = end;
            i = i + 1;
        }
        proof {
            lemma_start_monotone(self.blocks@, 0, self.blocks@.len() as int);
        }
        None
    }

    /// The playhead as a fraction of the whole timeline.
    pub fn global_time(&self) -> (r: Ratio)
        requires
            self.wf(),
        ensures
            r.num == self.caret.millis,
            r.den == self.total(),
    {
        Ratio { num: self.caret.millis, den: self.duration().millis }
    }

    /// The playhead as a fraction of the selected block, counted from the
    /// block's start; `0 / 1` when no block is selected.
    pub fn local_time(&self) -> (r: Ratio)
        requires
            self.wf(),
        ensures
            forall|i: int|
                is_selected(self.blocks@, self.caret.millis as nat, i) ==> r == (Ratio {
                    num: (self.caret.millis - start_of(self.blocks@, i)) as u32,
                    den: self.blocks@[i].0.millis,
                }),
            self.caret.millis >= self.total() ==> r == (Ratio { num: 0, den: 1 }),
            r.num < r.den,
    {
        match self.selected_span() {
            Some((i, start)) => {
                proof {
                    assert forall|j: int|
                        is_selected(self.blocks@, self.caret.millis as nat, j) implies j == i by {
                        lemma_selected_unique(self.blocks@, self.caret.millis as nat, i as int, j);
                    }
                    lemma_start_step(self.blocks@, i as int);
                    lemma_start_monotone(self.blocks@, i + 1, self.blocks@.len() as int);
                }
                Ratio { num: self.caret.millis - start, den: self.blocks[i].0.millis }
            },
            None => {
                proof {
                    assert forall|j: int|
                        is_selected(self.blocks@, self.caret.millis as nat, j) implies false by {
                        lemma_start_monotone(self.blocks@, j + 1, self.blocks@.len() as int);
                    }
                }
                Ratio { num: 0, den: 1 }
            },
        }
    }

    /// Brings the playhead back into `[0, total)` when it lies past the end.
    pub fn cap_caret(&mut self)
        requires
            old(self).wf(),
        ensures
            final(self).caret.millis == clamped(old(self).caret.millis as nat, old(self).total()),
            final(self).blocks@ == old(self).blocks@,
            final(self).fps == old(self).fps,
    {
        let total = self.duration().millis;
        if self.caret.millis >= total {
            self.caret = if total > 0 {
                Instant::zero().after(&Duration::from_millis(total - 1))
            } else {
                Instant::zero()
            };
        }
    }

    /// Removes the block under the playhead, then clamps the playhead. The
    /// last remaining block is never removed: then nothing changes and the
    /// result is `false`, as it is when no block is under the playhead.
    pub fn delete_selected(&mut self) -> (r: bool)
        requires
            old(self).wf(),
        ensures
            final(self).wf(),
            final(self).fps == old(self).fps,
            old(self).blocks@.len() >= 1 ==> final(self).blocks@.len() >= 1,
            r == (old(self).blocks@.len() > 1 && old(self).caret.millis < old(self).total()),
            r ==> exists|i: int|
                is_selected(old(self).blocks@, old(self).caret.millis as nat, i)
                    && final(self).blocks@ == old(self).blocks@.remove(i)
                    && final(self).caret.millis == clamped(
                    old(self).caret.millis as nat,
                    total_millis(old(self).blocks@.remove(i)),
                ),
            !r ==> final(self).blocks@ == old(self).blocks@ && final(self).caret
                == old(self).caret,
    {
        if self.blocks.len() <= 1 {
            return false;
        }
        match self.selected_index() {
            Some(index) => {
                let ghost before = self.blocks@;
                proof {
                    lemma_total_remove(before, index as int);
                    lemma_start_monotone(before, index + 1, before.len() as int);
                }
                self.blocks.remove(index);
                self.cap_caret();
                true
            },
            None => false,
        }
    }

    /// The block under the playhead, to edit in place; `None` once the
    /// playhead is at or past the end.
    pub fn selected_mut(&mut self) -> (r: Option<&mut (Duration, T)>)
        requires
            old(self).wf(),
        ensures
            match r {
                Some(b) => exists|i: int|
                    is_selected(old(self).blocks@, old(self).caret.millis as nat, i)
                        && *b == old(self).blocks@[i]
                        && final(self).blocks@ == old(self).blocks@.update(i, *final(b)),
                None => old(self).caret.millis >= old(self).total()
                    && final(self).blocks@ == old(self).blocks@,
            },
            final(self).caret == old(self).caret,
            final(self).fps == old(self).fps,
    {
        match self.selected_index() {
            Some(index) => Some(&mut self.blocks[index]),
            None => None,
        }
    }

    /// Appends a block at the end.
    pub fn push_block(&mut self, duration: Duration, content: T)
        requires
            old(self).total() + duration.millis <= u32::MAX,
        ensures
            final(self).blocks@ == old(self).blocks@.push((duration, content)),
            final(self).caret == old(self).caret,
            final(self).fps == old(self).fps,
            final(self).total() == old(self).total() + duration.millis,
            final(self).wf(),
    {
        self.blocks.push((duration, content));
        assert(self.blocks@.drop_last() == old(self).blocks@);
    }

    /// One playback tick: the playhead moves on by `1000 / fps` milliseconds,
    /// then is clamped into `[0, total)`.
    pub fn advance(&mut self)
        requires
            old(self).wf(),
            old(self).fps > 0,
        ensures
            final(self).caret.millis == clamped(
                old(self).caret.millis as nat + 1000nat / (old(self).fps as nat),
                old(self).total(),
            ),
            final(self).blocks@ == old(self).blocks@,
            final(self).fps == old(self).fps,
    {
        let step: u32 = 1000 / self.fps;
        let total = self.duration().millis;
        let moved: u64 = self.caret.millis as u64 + step as u64;
        if moved >= total as u64 {
            self.caret = Instant { millis: if total > 0 {
                total - 1
            } else {
                0
            } };
        } else {
            self.caret = Instant { millis: moved as u32 };
        }
    }
}

/// Taking a block out lowers the total by its duration.
pub proof fn lemma_total_remove<T>(blocks: Seq<(Duration, T)>, i: int)
    requires
        0 <= i < blocks.len(),
    ensures
        total_millis(blocks.remove(i)) + blocks[i].0.millis == total_millis(blocks),
    decreases blocks.len(),
{
    if i < blocks.len() - 1 {
        let d = blocks.drop_last();
        lemma_total_remove(d, i);
        assert(blocks.remove(i).drop_last() == d.remove(i));
        assert(blocks.remove(i).last() == blocks.last());
    } else {
        assert(blocks.remove(i) == blocks.drop_last());
    }
}

} // verus!
