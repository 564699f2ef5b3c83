//! Pickers: which of the choices of an actor is taken.

use vstd::prelude::*;

verus! {

/// Picks the first choice whose score is below a threshold. Scores and the
/// threshold are in hundredths.
#[derive(Debug, Clone, Copy, PartialEq, Eq, Structural)]
pub struct Below {
    pub threshold: i64,
}

/// Whether `index` is the first of `scores` below `threshold`.
pub open spec fn first_below(scores: Seq<i64>, threshold: i64, index: int) -> bool {
    &&& 0 <= index < scores.len()
    &&& scores[index] < threshold
    &&& forall|k: int| 0 <= k < index ==> scores[k] >= threshold
}

impl Below {
    pub fn new(threshold: i64) -> (picker: Self)
        ensures
            picker.threshold == threshold,
    {
        Below { threshold }
    }

    /// The choice to take, given the score of each choice in the order in
    /// which the choices were declared: the first whose score is below the
    /// threshold, whatever the scores after it; none if no score is below.
    pub fn pick(&self, scores: &Vec<i64>) -> (choice: Option<usize>)
        ensures
            match choice {
                Some(index) => first_below(scores@, self.threshold, index as int),
                None => forall|k: int| 0 <= k < scores@.len() ==> scores@[k] >= self.threshold,
            },
    {
        let mut i: usize = 0;
        while i < scores.len()
            invariant
                i <= scores@.len(),
                forall|k: int| 0 <= k < i ==> scores@[k] >= self.threshold,
            decreases scores@.len() - i,
        {
            if scores[i] < self.threshold {
                return Some(i);
            }
            i += 1;
        }
        None
    }
}

/// Picks the first choice whose score reaches a threshold. Scores and the
/// threshold are in hundredths.
#[derive(Debug, Clone, Copy, PartialEq, Eq, Structural)]
pub struct FirstToScore {
    pub threshold: i64,
}

/// Whether `index` is the first of `scores` that reaches `threshold`.
pub open spec fn first_to_score(scores: Seq<i64>, threshold: i64, index: int) -> bool {
    &&& 0 <= index < scores.len()
    &&& scores[index] >= threshold
    &&& forall|k: int| 0 <= k < index ==> scores[k] < threshold
}

impl FirstToScore {
    pub fn new(threshold: i64) -> (picker: Self)
        ensures
            picker.threshold == threshold,
    {
        FirstToScore { threshold }
    }

    /// The choice to take, given the score of each choice in the order in
    /// which the choices were declared: the first whose score reaches the
    /// threshold, whatever the scores after it; none if no score does.
    pub fn pick(&self, scores: &Vec<i64>) -> (choice: Option<usize>)
        ensures
            match choice {
                Some(index) => first_to_score(scores@, self.threshold, index as int),
                None => forall|k: int| 0 <= k < scores@.len() ==> scores@[k] < self.threshold,
            },
    {
        let mut i: usize = 0;
        while i < scores.len()
            invariant
                i <= scores@.len(),
                forall|k: int| 0 <= k < i ==> scores@[k] < self.threshold,
            decreases scores@.len() - i,
        {
            if scores[i] >= self.threshold {
                return Some(i);
            }
            i += 1;
        }
        None
    }
}

} // verus!
