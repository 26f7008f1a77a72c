//! The order of states, inputs and outputs: that of their identifiers, which
//! are compared character by character.

use crate::variant::Variant;
use std::cmp::Ordering;
use vstd::prelude::*;
use vstd::std_specs::cmp::PartialOrdSpecImpl;
use vstd::string::StrSliceExecFns;

verus! {

/// How one identifier stands to another in the order.
#[derive(Clone, Copy, Debug, PartialEq, Eq, Structural)]
pub enum Rank {
    Before,
    Same,
    After,
}

/// How `a` stands to `b`, given that they agree before index `from`: the
/// first character in which they differ decides, and where there is none,
/// the shorter one comes first.
pub open spec fn rank_from(a: Seq<char>, b: Seq<char>, from: int) -> Rank
    decreases a.len() - from,
{
    if from < 0 || from >= a.len() {
        if 0 <= from < b.len() {
            Rank::Before
        } else {
            Rank::Same
        }
    } else if from >= b.len() {
        Rank::After
    } else if (a[from] as int) < (b[from] as int) {
        Rank::Before
    } else if (a[from] as int) > (b[from] as int) {
        Rank::After
    } else {
        rank_from(a, b, from + 1)
    }
}

/// How the identifier `a` stands to the identifier `b`.
pub open spec fn rank_of(a: Seq<char>, b: Seq<char>) -> Rank {
    rank_from(a, b, 0)
}

/// Finds how the identifier `a` stands to the identifier `b`.
pub fn rank(a: &str, b: &str) -> (r: Rank)
    ensures
        r == rank_of(a@, b@),
{
    let n = a.unicode_len();
    let m = b.unicode_len();
    let mut i: usize = 0;
    while i < n && i < m
        invariant
            n == a@.len(),
            m == b@.len(),
            i <= n,
            i <= m,
            rank_from(a@, b@, 0) == rank_from(a@, b@, i as int),
        decreases n - i,
    {
        let x = a.get_char(i);
        let y = b.get_char(i);
        if (x as u32) < (y as u32) {
            return Rank::Before;
        }
        if (x as u32) > (y as u32) {
            return Rank::After;
        }
        i += 1;
    }
    if i < m {
        Rank::Before
    } else if i < n {
        Rank::After
    } else {
        Rank::Same
    }
}

/// Two identifiers have the same rank exactly when they are the same.
pub proof fn lemma_same_rank(a: Seq<char>, b: Seq<char>)
    ensures
        rank_of(a, b) == Rank::Same <==> a == b,
{
    lemma_same_rank_from(a, b, 0);
    if a =~= b {
    }
}

/// Identifiers that agree before `from` have the same rank exactly when
/// they agree from there on too.
proof fn lemma_same_rank_from(a: Seq<char>, b: Seq<char>, from: int)
    requires
        0 <= from <= a.len(),
        from <= b.len(),
    ensures
        rank_from(a, b, from) == Rank::Same <==> a.len() == b.len() && forall|i: int|
            from <= i < a.len() ==> a[i] == b[i],
    decreases a.len() - from,
{
    if from < a.len() && from < b.len() {
        lemma_same_rank_from(a, b, from + 1);
        if a[from] != b[from] {
            assert((a[from] as int) != (b[from] as int));
        }
    }
}

/// Identifiers that agree before `from`: the one is before the other
/// exactly when the other is after the one.
proof fn lemma_rank_turns_from(a: Seq<char>, b: Seq<char>, from: int)
    requires
        0 <= from,
    ensures
        rank_from(a, b, from) == Rank::Before <==> rank_from(b, a, from) == Rank::After,
    decreases a.len() - from,
{
    if from < a.len() && from < b.len() {
        lemma_rank_turns_from(a, b, from + 1);
    }
}

/// The one identifier is before the other exactly when the other is after
/// the one.
pub proof fn lemma_rank_turns(a: Seq<char>, b: Seq<char>)
    ensures
        rank_of(a, b) == Rank::Before <==> rank_of(b, a) == Rank::After,
{
    lemma_rank_turns_from(a, b, 0);
}

/// States, inputs and outputs are ordered by their identifiers, whatever
/// data they carry: equal in the order are those that are equal.
impl PartialOrd for Variant {
    fn partial_cmp(&self, other: &Self) -> (order: Option<Ordering>) {
        match rank(self.ident.as_str(), other.ident.as_str()) {
            Rank::Before => Some(Ordering::Less),
            Rank::Same => Some(Ordering::Equal),
            Rank::After => Some(Ordering::Greater),
        }
    }
}

impl PartialOrdSpecImpl for Variant {
    open spec fn obeys_partial_cmp_spec() -> bool {
        true
    }

    open spec fn partial_cmp_spec(&self, other: &Self) -> Option<Ordering> {
        match rank_of(self.ident@, other.ident@) {
            Rank::Before => Some(Ordering::Less),
            Rank::Same => Some(Ordering::Equal),
            Rank::After => Some(Ordering::Greater),
        }
    }
}

} // verus!
