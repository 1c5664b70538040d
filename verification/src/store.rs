//! The vector store's data model: the distance metric a collection is
//! configured with, the boolean filter DSL of count, delete and search,
//! and the stored point itself.
//!
//! Vector components and similarity scores are single-precision floats
//! on the wire; here they are carried as their IEEE-754 bit patterns
//! (`u32`), which the surrounding client code converts losslessly.

use vstd::prelude::*;

use crate::payload::Value;

verus! {

/// The similarity function a collection is configured with.
#[derive(Clone, Copy, Debug, PartialEq, Eq, Structural)]
pub enum Distance {
    Cos,
    Dot,
    Euc,
    Man,
}

/// One condition of the filter DSL: a payload field matching a keyword,
/// an integer or a boolean.
#[derive(Debug)]
pub enum Condition {
    MatchText { field: String, text: String },
    MatchInteger { field: String, value: i64 },
    MatchTruth { field: String, value: bool },
}

impl Condition {
    /// A condition on a keyword field.
    pub fn match_text(field: String, text: String) -> (r: Condition)
        ensures
            r == (Condition::MatchText { field, text }),
    {
        Condition::MatchText { field, text }
    }

    /// A condition on an integer field.
    pub fn match_integer(field: String, value: i64) -> (r: Condition)
        ensures
            r == (Condition::MatchInteger { field, value }),
    {
        Condition::MatchInteger { field, value }
    }

    /// A condition on a boolean field.
    pub fn match_truth(field: String, value: bool) -> (r: Condition)
        ensures
            r == (Condition::MatchTruth { field, value }),
    {
        Condition::MatchTruth { field, value }
    }
}

/// A lower bound on how many of its conditions must hold.
#[derive(Debug)]
pub struct MinShould {
    pub conditions: Vec<Condition>,
    pub min_count: u64,
}

/// The boolean filter applied to count, delete and search: every `must`
/// condition holds, no `must_not` condition holds, `should` conditions
/// raise the score, and `min_should` asks for a minimum number of
/// matches among its own conditions.
#[derive(Debug)]
pub struct Filter {
    pub must: Vec<Condition>,
    pub must_not: Vec<Condition>,
    pub should: Vec<Condition>,
    pub min_should: Option<MinShould>,
}

impl Filter {
    /// The empty filter, which every point matches.
    pub fn new() -> (r: Filter)
        ensures
            r.must@.len() == 0,
            r.must_not@.len() == 0,
            r.should@.len() == 0,
            r.min_should is None,
    {
        Filter { must: Vec::new(), must_not: Vec::new(), should: Vec::new(), min_should: None }
    }

    /// The filter with its `must` conditions replaced.
    pub fn must_filter(self, must: Vec<Condition>) -> (r: Filter)
        ensures
            r.must == must,
            r.must_not == self.must_not,
            r.should == self.should,
            r.min_should == self.min_should,
    {
        Filter { must, ..self }
    }

    /// The filter with its `must_not` conditions replaced.
    pub fn must_not_filter(self, must_not: Vec<Condition>) -> (r: Filter)
        ensures
            r.must == self.must,
            r.must_not == must_not,
            r.should == self.should,
            r.min_should == self.min_should,
    {
        Filter { must_not, ..self }
    }

    /// The filter with its `should` conditions replaced.
    pub fn should_filter(self, should: Vec<Condition>) -> (r: Filter)
        ensures
            r.must == self.must,
            r.must_not == self.must_not,
            r.should == should,
            r.min_should == self.min_should,
    {
        Filter { should, ..self }
    }

    /// The filter with its minimum-should clause replaced.
    pub fn min_should_filter(self, min_should: Option<MinShould>) -> (r: Filter)
        ensures
            r.must == self.must,
            r.must_not == self.must_not,
            r.should == self.should,
            r.min_should == min_should,
    {
        Filter { min_should, ..self }
    }
}

/// One stored point: its 64-bit identifier, its embedding vector as
/// IEEE-754 bit patterns, and its payload snapshot.
#[derive(Debug)]
pub struct Point {
    pub id: u64,
    pub vector: Vec<u32>,
    pub payload: Value,
}

/// The identifiers a batch of points carries.
pub open spec fn point_ids(points: Seq<Point>) -> Set<u64> {
    Set::new(|id: u64| exists|i: int| 0 <= i < points.len() && (#[trigger] points[i]).id == id)
}

/// The identifiers a collection holds after a batch upsert: an upsert
/// inserts new identifiers and replaces points at existing ones.
pub open spec fn upserted_ids(existing: Set<u64>, points: Seq<Point>) -> Set<u64> {
    existing.union(point_ids(points))
}

/// Law: a second batch whose points carry pointwise the same
/// identifiers as the first leaves the collection's identifier set, and
/// so its point count, unchanged — re-ingesting a document overwrites
/// its points instead of duplicating them.
pub proof fn lemma_reingestion_is_idempotent(first: Seq<Point>, second: Seq<Point>)
    requires
        first.len() == second.len(),
        forall|i: int| 0 <= i < first.len() ==> (#[trigger] second[i]).id == first[i].id,
    ensures
        upserted_ids(upserted_ids(Set::empty(), first), second) == upserted_ids(
            Set::empty(),
            first,
        ),
{
    assert forall|id: u64| point_ids(second).contains(id) implies point_ids(first).contains(
        id,
    ) by {
        let i = choose|i: int| 0 <= i < second.len() && (#[trigger] second[i]).id == id;
        assert(first[i].id == id);
    }
    assert forall|id: u64| point_ids(first).contains(id) implies point_ids(second).contains(
        id,
    ) by {
        let i = choose|i: int| 0 <= i < first.len() && (#[trigger] first[i]).id == id;
        assert(second[i].id == id);
    }
    assert(point_ids(second) =~= point_ids(first));
    assert(upserted_ids(upserted_ids(Set::empty(), first), second) =~= upserted_ids(
        Set::empty(),
        first,
    ));
}

} // verus!
