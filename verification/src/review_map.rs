//! The learning map: course → section → concept, with mastery per concept.
use vstd::prelude::*;

verus! {

/// Mastery of a concept, from its answer history.
#[derive(Clone, Copy, Debug, PartialEq, Eq, Structural)]
pub enum ConceptStatus {
    /// Answered, with at least 70% correct (✓).
    Mastered,
    /// Answered, with less than 70% correct (△).
    Weak,
    /// Never answered (○).
    Unreviewed,
}

pub open spec fn status_of(attempts: usize, correct: usize) -> ConceptStatus {
    if attempts == 0 {
        ConceptStatus::Unreviewed
    } else if correct * 100 < attempts * 70 {
        ConceptStatus::Weak
    } else {
        ConceptStatus::Mastered
    }
}

pub open spec fn status_mark(s: ConceptStatus) -> char {
    match s {
        ConceptStatus::Mastered => '✓',
        ConceptStatus::Weak => '△',
        ConceptStatus::Unreviewed => '○',
    }
}

impl ConceptStatus {
    /// The mark drawn in front of a concept.
    pub fn mark(&self) -> (r: &'static str)
        ensures
            r@ == seq![status_mark(*self)],
    {
        match self {
            ConceptStatus::Mastered => {
                proof {
                    reveal_strlit("✓");
                }
                "✓"
            },
            ConceptStatus::Weak => {
                proof {
                    reveal_strlit("△");
                }
                "△"
            },
            ConceptStatus::Unreviewed => {
                proof {
                    reveal_strlit("○");
                }
                "○"
            },
        }
    }
}

/// A concept of a section, with its answer counts.
#[derive(Clone, Debug)]
pub struct ConceptNode {
    pub concept_id: Option<i64>,
    pub name: String,
    pub attempts: usize,
    pub correct: usize,
}

impl ConceptNode {
    pub fn status(&self) -> (r: ConceptStatus)
        ensures
            r == status_of(self.attempts, self.correct),
    {
        if self.attempts == 0 {
            ConceptStatus::Unreviewed
        } else if (self.correct as u128) * 100 < (self.attempts as u128) * 70 {
            ConceptStatus::Weak
        } else {
            ConceptStatus::Mastered
        }
    }
}

/// A section of the map: its title, its concepts and its source references.
#[derive(Clone, Debug)]
pub struct OutlineSection {
    pub title: String,
    pub nodes: Vec<ConceptNode>,
    pub refs: Vec<usize>,
}

/// The learning map of a course.
#[derive(Clone, Debug)]
pub struct ReviewMap {
    pub course: String,
    pub sections: Vec<OutlineSection>,
    /// Concepts that could not be placed in a section.
    pub unresolved: usize,
    /// Note titles, numbered from 1 for the references.
    pub titles: Vec<(i64, String)>,
    pub today_attempts: usize,
    pub today_reviewed: Vec<String>,
}

/// (mastered, weak, unreviewed) among `nodes`.
pub open spec fn counts_of(nodes: Seq<ConceptNode>) -> (usize, usize, usize)
    decreases nodes.len(),
{
    if nodes.len() == 0 {
        (0, 0, 0)
    } else {
        let (m, w, u) = counts_of(nodes.drop_last());
        match status_of(nodes.last().attempts, nodes.last().correct) {
            ConceptStatus::Mastered => ((m + 1) as usize, w, u),
            ConceptStatus::Weak => (m, (w + 1) as usize, u),
            ConceptStatus::Unreviewed => (m, w, (u + 1) as usize),
        }
    }
}

/// Counts the concepts of a section by status.
pub fn section_counts_of(nodes: &Vec<ConceptNode>) -> (r: (usize, usize, usize))
    ensures
        r == counts_of(nodes@),
        r.0 + r.1 + r.2 == nodes@.len(),
{
    let mut m: usize = 0;
    let mut w: usize = 0;
    let mut u: usize = 0;
    let mut i: usize = 0;
    while i < nodes.len()
        invariant
            i <= nodes.len(),
            (m, w, u) == counts_of(nodes@.take(i as int)),
            m + w + u == i,
        decreases nodes.len() - i,
    {
        assert(nodes@.take(i + 1).drop_last() =~= nodes@.take(i as int));
        match nodes[i].status() {
            ConceptStatus::Mastered => m = m + 1,
            ConceptStatus::Weak => w = w + 1,
            ConceptStatus::Unreviewed => u = u + 1,
        }
        i = i + 1;
    }
    assert(nodes@.take(nodes.len() as int) =~= nodes@);
    (m, w, u)
}

impl ReviewMap {
    /// Per-section (mastered, weak, unreviewed) counts, in section order.
    pub fn section_counts(&self) -> (r: Vec<(usize, usize, usize)>)
        ensures
            r@.len() == self.sections@.len(),
            forall|k: int| 0 <= k < r@.len() ==> #[trigger] r@[k] == counts_of(self.sections@[k].nodes@),
    {
        let mut r: Vec<(usize, usize, usize)> = Vec::new();
        let mut i: usize = 0;
        while i < self.sections.len()
            invariant
                i <= self.sections.len(),
                r@.len() == i,
                forall|k: int| 0 <= k < i ==> #[trigger] r@[k] == counts_of(self.sections@[k].nodes@),
            decreases self.sections.len() - i,
        {
            r.push(section_counts_of(&self.sections[i].nodes));
            i = i + 1;
        }
        r
    }
}

} // verus!
