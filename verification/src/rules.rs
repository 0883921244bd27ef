//! Rules given by their two lists of neighbour counts.

use vstd::prelude::*;
use crate::rule_text::{
    born_counts, born_part, is_rule_text, lemma_counts_are_in_range, rule_text_error,
    scan_rule_text, stay_counts, stay_part, RuleTextError,
};

verus! {

/// Whether `neighbours` is one of `counts`.
pub open spec fn has_count(counts: Seq<i32>, neighbours: int) -> bool {
    exists|i: int| 0 <= i < counts.len() && #[trigger] counts[i] == neighbours
}

/// The transition of one cell under the rule with birth counts `borns` and
/// survival counts `stays`: a living cell lives on iff its number of living
/// neighbours is a survival count, a dead cell comes alive iff it is a birth
/// count.
pub open spec fn rule_next(borns: Seq<i32>, stays: Seq<i32>, alive: bool, neighbours: int) -> bool {
    if alive {
        has_count(stays, neighbours)
    } else {
        has_count(borns, neighbours)
    }
}

/// A rule: the neighbour counts at which a dead cell is born and those at
/// which a living cell stays alive. Each list stands for the set of its
/// counts.
pub struct Rule {
    pub borns: Vec<i32>,
    pub stays: Vec<i32>,
}

/// Whether two lists stand for the same set of counts: order and repetition
/// do not matter.
pub open spec fn same_counts(first: Seq<i32>, second: Seq<i32>) -> bool {
    forall|neighbours: int| has_count(first, neighbours) <==> has_count(second, neighbours)
}

/// Tests whether a number is one of the counts.
pub fn contains_count(counts: &[i32], neighbours: i32) -> (found: bool)
    ensures
        found == has_count(counts@, neighbours as int),
{
    let mut i: usize = 0;
    while i < counts.len()
        invariant
            i <= counts.len(),
            forall|j: int| 0 <= j < i ==> counts@[j] != neighbours,
        decreases counts.len() - i,
    {
        if counts[i] == neighbours {
            return true;
        }
        i = i + 1;
    }
    false
}

/// Tests whether every count of the first list is one of the second.
fn counts_are_among(first: &[i32], second: &[i32]) -> (among: bool)
    ensures
        among == forall|neighbours: int|
            has_count(first@, neighbours) ==> has_count(second@, neighbours),
{
    let mut i: usize = 0;
    while i < first.len()
        invariant
            i <= first.len(),
            forall|j: int| 0 <= j < i ==> has_count(second@, #[trigger] first@[j] as int),
        decreases first.len() - i,
    {
        if !contains_count(second, first[i]) {
            assert(has_count(first@, first@[i as int] as int));
            return false;
        }
        i = i + 1;
    }
    assert forall|neighbours: int| has_count(first@, neighbours) implies has_count(
        second@,
        neighbours,
    ) by {
        let j = choose|j: int| 0 <= j < first@.len() && #[trigger] first@[j] == neighbours;
        assert(has_count(second@, first@[j] as int));
    }
    true
}

/// Tests whether two lists stand for the same set of counts.
pub fn have_same_counts(first: &[i32], second: &[i32]) -> (same: bool)
    ensures
        same == same_counts(first@, second@),
{
    counts_are_among(first, second) && counts_are_among(second, first)
}

impl Rule {
    /// No count of the rule lies outside `0..=8`, the numbers of neighbours
    /// that a cell can have.
    pub open spec fn well_formed(&self) -> bool {
        &&& forall|i: int| 0 <= i < self.borns@.len() ==> 0 <= #[trigger] self.borns@[i] <= 8
        &&& forall|i: int| 0 <= i < self.stays@.len() ==> 0 <= #[trigger] self.stays@[i] <= 8
    }

    /// The state, 0 or 1, that `check` gives a cell in state `curr_state`
    /// whose neighbours' states add up to `neighbours_total_state`. A state
    /// other than 0 and 1 counts as dead and stays dead.
    pub open spec fn next_state(&self, curr_state: int, neighbours_total_state: int) -> int {
        if curr_state == 1 && has_count(self.stays@, neighbours_total_state) {
            1
        } else if curr_state == 0 && has_count(self.borns@, neighbours_total_state) {
            1
        } else {
            0
        }
    }

    /// Reads a rule from a text such as `b3s23`.
    pub fn new(rule: &str) -> (parsed: Rule)
        requires
            is_rule_text(rule@),
        ensures
            parsed.borns@ == born_counts(rule@),
            parsed.stays@ == stay_counts(rule@),
            parsed.well_formed(),
    {
        proof {
            lemma_counts_are_in_range(born_part(rule@));
            lemma_counts_are_in_range(stay_part(rule@));
        }
        match scan_rule_text(rule) {
            Ok((borns, stays)) => Rule { borns, stays },
            Err(_) => Rule { borns: Vec::new(), stays: Vec::new() },
        }
    }

    /// Reads a rule from a text, or says why the text is no rule.
    pub fn try_new(rule: &str) -> (parsed: Result<Rule, RuleTextError>)
        ensures
            match parsed {
                Ok(rule_read) => is_rule_text(rule@) && rule_read.borns@ == born_counts(rule@)
                    && rule_read.stays@ == stay_counts(rule@) && rule_read.well_formed(),
                Err(error) => rule_text_error(rule@) == Some(error),
            },
    {
        match scan_rule_text(rule) {
            Ok(_) => Ok(Rule::new(rule)),
            Err(error) => Err(error),
        }
    }

    /// The next state of a cell, with states written as 0 (dead) and 1 (alive).
    pub fn check(&self, curr_state: i32, neighbours_total_state: i32) -> (next: i32)
        ensures
            next == self.next_state(curr_state as int, neighbours_total_state as int),
    {
        if curr_state == 1 && contains_count(self.stays.as_slice(), neighbours_total_state) {
            1
        } else if curr_state == 0 && contains_count(self.borns.as_slice(), neighbours_total_state) {
            1
        } else {
            0
        }
    }
}

/// On the states 0 and 1, `next_state` is the rule's transition.
pub proof fn lemma_next_state_is_rule_next(rule: Rule, alive: bool, neighbours: int)
    ensures
        rule.next_state(if alive { 1 } else { 0 }, neighbours) == (if rule_next(
            rule.borns@,
            rule.stays@,
            alive,
            neighbours,
        ) { 1int } else { 0int }),
{
}

} // verus!
