//! High scores kept in a flash page: reading the stored scores and deciding
//! what to write back.
use vstd::prelude::*;

verus! {

/// Number of games with a stored high score.
pub const HIGH_SCORE_SLOTS: usize = 2;

/// Number of words written into the flash page at once.
pub const PAGE_WORDS: usize = 16;

/// The stored high scores and whether the flash page still has to be
/// rewritten with them.
#[derive(Debug, Clone, Copy)]
pub struct ScoreFlasher {
    pub scores: [u32; HIGH_SCORE_SLOTS],
    pub dirty: bool,
}

/// The high score that a stored word stands for: erased flash reads as all
/// ones and counts as zero.
pub open spec fn stored_score(word: u32) -> u32 {
    if word == u32::MAX { 0 } else { word }
}

impl ScoreFlasher {
    /// The scores as read from the flash page.
    pub fn new(scores: [u32; HIGH_SCORE_SLOTS]) -> (f: ScoreFlasher)
        ensures
            f.scores == scores,
            !f.dirty,
    {
        ScoreFlasher { scores, dirty: false }
    }

    /// Records `score` for game `id` and returns the previous high score;
    /// when `score` beats it, the page is marked for rewriting with the new
    /// high score.
    pub fn new_high_score(&mut self, id: usize, score: u32) -> (hs: u32)
        requires
            id < HIGH_SCORE_SLOTS,
        ensures
            hs == stored_score(old(self).scores@[id as int]),
            score > hs ==> final(self).scores@ == old(self).scores@.update(id as int, score)
                && final(self).dirty,
            score <= hs ==> *final(self) == *old(self),
    {
        let mut scores: [u32; HIGH_SCORE_SLOTS] = self.scores;
        if scores[id] == u32::MAX {
            scores[id] = 0;
        }
        let hs: u32 = scores[id];
        if score > hs {
            scores[id] = score;
            self.scores = scores;
            self.dirty = true;
            assert(self.scores@ =~= old(self).scores@.update(id as int, score));
        }
        hs
    }

    /// The high score stored in slot `id`.
    pub open spec fn high_score_of(self, id: usize) -> u32 {
        stored_score(self.scores@[id as int])
    }

    /// Whether `self` is `before` after recording `score` for slot `id`,
    /// `hs` being the previous high score.
    pub open spec fn recorded(self, before: ScoreFlasher, id: usize, score: u32, hs: u32) -> bool {
        &&& hs == stored_score(before.scores@[id as int])
        &&& if score > hs {
            self.scores@ == before.scores@.update(id as int, score) && self.dirty
        } else {
            self == before
        }
    }

    /// Whether the flash page holds the current scores.
    pub fn poll(&self) -> (done: bool)
        ensures
            done == !self.dirty,
    {
        !self.dirty
    }

    /// The words to write into the flash page, if it has to be rewritten:
    /// the scores, then zeros.
    pub fn page_to_write(&self) -> (page: Option<[u32; PAGE_WORDS]>)
        ensures
            page is Some <==> self.dirty,
            page matches Some(p) ==> forall|i: int|
                0 <= i < PAGE_WORDS ==> #[trigger] p@[i] == if i < HIGH_SCORE_SLOTS {
                    self.scores@[i]
                } else {
                    0
                },
    {
        if self.dirty {
            let mut page: [u32; PAGE_WORDS] = [0u32; PAGE_WORDS];
            let mut i: usize = 0;
            while i < HIGH_SCORE_SLOTS
                invariant
                    i <= HIGH_SCORE_SLOTS,
                    forall|k: int|
                        0 <= k < PAGE_WORDS ==> #[trigger] page@[k] == if k < i {
                            self.scores@[k]
                        } else {
                            0
                        },
                decreases HIGH_SCORE_SLOTS - i,
            {
                page[i] = self.scores[i];
                i = i + 1;
            }
            Some(page)
        } else {
            None
        }
    }

    /// Records that the flash page has been rewritten.
    pub fn mark_written(&mut self)
        ensures
            final(self).scores == old(self).scores,
            !final(self).dirty,
    {
        self.dirty = false;
    }
}

/// Recording a score never lowers the high score of its slot, which
/// afterwards is at least the score, and leaves the other slots alone.
pub proof fn lemma_high_score_monotone(before: ScoreFlasher, after: ScoreFlasher, id: usize, other: usize, score: u32, hs: u32)
    requires
        id < HIGH_SCORE_SLOTS,
        other < HIGH_SCORE_SLOTS,
        other != id,
        score < u32::MAX,
        after.recorded(before, id, score, hs),
    ensures
        after.high_score_of(id) >= before.high_score_of(id),
        after.high_score_of(id) >= score,
        after.high_score_of(other) == before.high_score_of(other),
{
}

} // verus!
