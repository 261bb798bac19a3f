//! Message source filters

use std::collections::HashSet;

use vstd::prelude::*;

use crate::traits::MessageSource;

verus! {

/// Filter capability: a predicate over a message's source hash, letting an
/// endpoint claim messages ahead of normal policy selection.
pub trait Filter: Sized {
    /// Whether this filter matches a message carrying the given source hash.
    spec fn matches(&self, source_hash: Option<u64>) -> bool;

    /// Evaluate the filter against a message's source hash.
    fn filter(&self, source_hash: Option<u64>) -> (b: bool)
        ensures
            b == self.matches(source_hash),
    ;
}

/// Filter combination mode.
#[derive(Debug)]
pub enum FilterOp {
    /// Match any registered source hash
    Any,
    /// Match all registered source hashes
    All,
    /// Match no registered source hash
    Negative,
}

impl Default for FilterOp {
    /// The default mode matches any registered source hash.
    fn default() -> (op: Self)
        ensures
            op is Any,
    {
        FilterOp::Any
    }
}

/// Message source filter: matches a message whose source hashes to one of
/// the registered tag hashes. Only the `Any` combination mode is defined;
/// the other modes match nothing.
#[derive(Debug)]
pub struct SourceFilter {
    op: FilterOp,
    hashes: HashSet<u64>,
}

impl SourceFilter {
    /// The set of registered tag hashes.
    pub closed spec fn hash_set(&self) -> Set<u64> {
        self.hashes@
    }

    /// Whether the filter is in the match-any combination mode.
    pub closed spec fn match_any(&self) -> bool {
        self.op is Any
    }

    /// Hash a [`MessageSource`], and add it to the filter set
    pub fn add<S: MessageSource>(self, source: S) -> (f: Self)
        ensures
            f.hash_set() == self.hash_set().insert(source.hash_spec()),
            f.match_any() == self.match_any(),
    {
        let hash = source.hash64();
        let mut f = self;
        f.hashes.insert(hash);
        f
    }
}

impl Default for SourceFilter {
    /// An empty filter in the match-any mode; it matches no message.
    fn default() -> (f: Self)
        ensures
            f.hash_set() == Set::<u64>::empty(),
            f.match_any(),
    {
        SourceFilter { op: FilterOp::Any, hashes: HashSet::new() }
    }
}

impl Filter for SourceFilter {
    open spec fn matches(&self, source_hash: Option<u64>) -> bool {
        match source_hash {
            Some(h) => self.match_any() && self.hash_set().contains(h),
            None => false,
        }
    }

    fn filter(&self, source_hash: Option<u64>) -> (b: bool) {
        if let Some(hash) = source_hash {
            match self.op {
                FilterOp::Any => self.hashes.contains(&hash),
                FilterOp::All => false,
                FilterOp::Negative => false,
            }
        } else {
            false
        }
    }
}

/// Source filter law: a filter built from three tags matches exactly the
/// messages whose source hashes to one of those tags — every other source
/// hash is rejected, and so is a message without a source.
pub proof fn lemma_source_filter_tags(f: SourceFilter, a: u64, b: u64, c: u64)
    requires
        f.match_any(),
        f.hash_set() == set![a, b, c],
    ensures
        forall|h: u64| f.matches(Some(h)) <==> (h == a || h == b || h == c),
        !f.matches(None::<u64>),
{
    assert forall|h: u64| f.matches(Some(h)) <==> (h == a || h == b || h == c) by {
        assert(f.hash_set().contains(h) <==> (h == a || h == b || h == c));
    }
}

} // verus!
