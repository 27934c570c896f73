//! Linking independently owned coins into one atomically settling unit.
//!
//! The first selected coin of each asset group is a *primary* coin. With a
//! single primary coin the whole assertion bag binds to it directly. With
//! more, each primary coin additionally asserts the concurrent spend of the
//! previous one and the first asserts the last, closing a single cycle: no
//! subset of the primaries can be spent without all of them.

use vstd::prelude::*;

use crate::types::{Assertion, Condition, Hash32};

verus! {

/// One primary coin's pending conditions together with a one-shot claim
/// token: conditions are claimed exactly once during assembly, and claiming
/// twice is ruled out statically by `claim`'s precondition.
#[derive(Clone, Debug, PartialEq, Eq)]
pub struct ConditionEntry {
    pub coin_id: Hash32,
    pub conditions: Vec<Condition>,
    pub claimed: bool,
}

/// The pending conditions of every primary coin, in primary order.
#[derive(Clone, Debug, PartialEq, Eq)]
pub struct PrimaryConditions {
    pub entries: Vec<ConditionEntry>,
}

/// The announcement assertions of an offer, as spend conditions.
pub open spec fn assertion_conditions(assertions: Seq<Assertion>) -> Seq<Condition> {
    assertions.map_values(
        |a: Assertion| Condition::AssertPuzzleAnnouncement { announcement_id: a.announcement_id },
    )
}

/// The coin ids asserted concurrent by a condition list, in order.
pub open spec fn concurrent_targets(conds: Seq<Condition>) -> Seq<Hash32>
    decreases conds.len(),
{
    if conds.len() == 0 {
        Seq::empty()
    } else {
        let rest = concurrent_targets(conds.drop_last());
        match conds.last() {
            Condition::AssertConcurrentSpend { coin_id } => rest.push(coin_id),
            _ => rest,
        }
    }
}

impl PrimaryConditions {
    /// The condition lists stand in primary order, none yet claimed.
    pub open spec fn wf(&self) -> bool {
        forall|i: int| 0 <= i < self.entries@.len() ==> !(#[trigger] self.entries@[i]).claimed
    }

    /// What the linker assigns to primary coin `i` out of `n`, given the
    /// shared assertion bag: the bag itself for the first coin, nothing for
    /// the others, plus — only when `n > 1` — one concurrent-spend
    /// assertion of the previous coin, the first asserting the last.
    pub open spec fn assigned_conditions(
        ids: Seq<Hash32>,
        assertions: Seq<Assertion>,
        i: int,
    ) -> Seq<Condition> {
        let n = ids.len() as int;
        if n == 1 {
            assertion_conditions(assertions)
        } else {
            let base: Seq<Condition> = if i == 0 {
                assertion_conditions(assertions)
            } else {
                Seq::empty()
            };
            let prev = if i == 0 {
                ids[n - 1]
            } else {
                ids[i - 1]
            };
            base.push(Condition::AssertConcurrentSpend { coin_id: prev })
        }
    }

    /// Partition the assertion bag over the primary coins and, when more
    /// than one primary coin exists, close the concurrent-spend ring.
    pub fn link(primary_ids: &Vec<Hash32>, assertions: &Vec<Assertion>) -> (r: PrimaryConditions)
        requires
            primary_ids@.len() > 0,
        ensures
            r.wf(),
            r.entries@.len() == primary_ids@.len(),
            forall|i: int|
                0 <= i < primary_ids@.len() ==> (#[trigger] r.entries@[i]).coin_id
                    == primary_ids@[i],
            forall|i: int|
                0 <= i < primary_ids@.len() ==> (#[trigger] r.entries@[i]).conditions@
                    == Self::assigned_conditions(primary_ids@, assertions@, i),
    {
        let n = primary_ids.len();
        let mut entries: Vec<ConditionEntry> = Vec::new();
        let mut i: usize = 0;
        while i < n
            invariant
                n == primary_ids@.len(),
                n > 0,
                i <= n,
                entries@.len() == i,
                forall|k: int|
                    0 <= k < i ==> (#[trigger] entries@[k]).coin_id == primary_ids@[k],
                forall|k: int| 0 <= k < i ==> !(#[trigger] entries@[k]).claimed,
                forall|k: int|
                    0 <= k < i ==> (#[trigger] entries@[k]).conditions@
                        == Self::assigned_conditions(primary_ids@, assertions@, k),
            decreases n - i,
        {
            let mut conditions: Vec<Condition> = Vec::new();
            if i == 0 {
                let mut j: usize = 0;
                while j < assertions.len()
                    invariant
                        j <= assertions.len(),
                        conditions@ == assertion_conditions(assertions@.take(j as int)),
                    decreases assertions.len() - j,
                {
                    conditions.push(
                        Condition::AssertPuzzleAnnouncement {
                            announcement_id: assertions[j].announcement_id,
                        },
                    );
                    proof {
                        assert(assertions@.take(j + 1 as int).drop_last() =~= assertions@.take(
                            j as int,
                        ));
                        assert(conditions@ =~= assertion_conditions(assertions@.take(j + 1 as int)));
                    }
                    j = j + 1;
                }
                assert(assertions@.take(assertions@.len() as int) =~= assertions@);
            }
            if n > 1 {
                let prev = if i == 0 {
                    primary_ids[n - 1]
                } else {
                    primary_ids[i - 1]
                };
                conditions.push(Condition::AssertConcurrentSpend { coin_id: prev });
            }
            assert(conditions@ =~= Self::assigned_conditions(primary_ids@, assertions@, i as int));
            entries.push(ConditionEntry { coin_id: primary_ids[i], conditions, claimed: false });
            i = i + 1;
        }
        PrimaryConditions { entries }
    }

    /// Claim the conditions bound to primary coin `i`. Each entry may be
    /// claimed only once: a second claim is a programming-error-class
    /// fault, ruled out by the precondition rather than detected at run
    /// time.
    pub fn claim(&mut self, i: usize) -> (r: Vec<Condition>)
        requires
            i < old(self).entries@.len(),
            !old(self).entries@[i as int].claimed,
        ensures
            r@ == old(self).entries@[i as int].conditions@,
            final(self).entries@.len() == old(self).entries@.len(),
            final(self).entries@[i as int].claimed,
            final(self).entries@[i as int].coin_id == old(self).entries@[i as int].coin_id,
            forall|k: int|
                0 <= k < old(self).entries@.len() && k != i ==> final(self).entries@[k]
                    == old(self).entries@[k],
    {
        let entry = &mut self.entries[i];
        let mut conditions: Vec<Condition> = Vec::new();
        core::mem::swap(&mut conditions, &mut entry.conditions);
        entry.claimed = true;
        conditions
    }
}

/// The atomicity ring, stated of the linker's output: with more than one
/// primary coin, every primary coin asserts the concurrent spend of exactly
/// one other — coin `i` asserts coin `i - 1`, the first asserts the last —
/// and every primary coin is asserted by exactly one other. The assertion
/// graph is one cycle through all the primary coins.
pub proof fn lemma_atomicity_ring(ids: Seq<Hash32>, assertions: Seq<Assertion>)
    requires
        ids.len() > 1,
    ensures
        forall|i: int|
            0 <= i < ids.len() ==> concurrent_targets(
                #[trigger] PrimaryConditions::assigned_conditions(ids, assertions, i),
            ) == seq![ids[if i == 0 { ids.len() - 1 } else { i - 1 }]],
        forall|j: int|
            0 <= j < ids.len() ==> concurrent_targets(
                PrimaryConditions::assigned_conditions(
                    ids,
                    assertions,
                    #[trigger] ring_successor(ids.len() as int, j),
                ),
            ) == seq![ids[j]],
{
    assert forall|i: int| 0 <= i < ids.len() implies concurrent_targets(
        #[trigger] PrimaryConditions::assigned_conditions(ids, assertions, i),
    ) == seq![ids[if i == 0 { ids.len() - 1 } else { i - 1 }]] by {
        let conds = PrimaryConditions::assigned_conditions(ids, assertions, i);
        let prev = if i == 0 {
            ids[ids.len() - 1]
        } else {
            ids[i - 1]
        };
        lemma_no_concurrent_in_assertions(assertions);
        assert(conds.last() == (Condition::AssertConcurrentSpend { coin_id: prev }));
        if i == 0 {
            assert(conds.drop_last() =~= assertion_conditions(assertions));
            assert(concurrent_targets(conds.drop_last()) == Seq::<Hash32>::empty());
        } else {
            assert(conds.drop_last() =~= Seq::<Condition>::empty());
            lemma_no_concurrent_in_assertions(Seq::empty());
            assert(assertion_conditions(Seq::<Assertion>::empty()) =~= Seq::<Condition>::empty());
            assert(concurrent_targets(conds.drop_last()) == Seq::<Hash32>::empty());
        }
        assert(concurrent_targets(conds) == concurrent_targets(conds.drop_last()).push(prev));
        assert(concurrent_targets(conds) =~= seq![prev]);
    }
}

/// The single-coin shortcut, stated of the linker's output: with exactly
/// one primary coin no ring conditions are added — the coin carries the
/// base assertion bag and nothing else.
pub proof fn lemma_single_primary_no_ring(ids: Seq<Hash32>, assertions: Seq<Assertion>)
    requires
        ids.len() == 1,
    ensures
        PrimaryConditions::assigned_conditions(ids, assertions, 0) == assertion_conditions(
            assertions,
        ),
        concurrent_targets(PrimaryConditions::assigned_conditions(ids, assertions, 0)) == Seq::<
            Hash32,
        >::empty(),
{
    lemma_no_concurrent_in_assertions(assertions);
}

/// The index of the primary coin that asserts coin `j` in a ring of `n`.
pub open spec fn ring_successor(n: int, j: int) -> int {
    if j == n - 1 {
        0
    } else {
        j + 1
    }
}

/// Announcement assertions contribute no concurrent-spend targets.
proof fn lemma_no_concurrent_in_assertions(assertions: Seq<Assertion>)
    ensures
        concurrent_targets(assertion_conditions(assertions)) == Seq::<Hash32>::empty(),
    decreases assertions.len(),
{
    let conds = assertion_conditions(assertions);
    if assertions.len() == 0 {
        assert(conds =~= Seq::<Condition>::empty());
        assert(concurrent_targets(conds) =~= Seq::<Hash32>::empty());
    } else {
        lemma_no_concurrent_in_assertions(assertions.drop_last());
        assert(conds.drop_last() =~= assertion_conditions(assertions.drop_last()));
        assert(concurrent_targets(conds) =~= Seq::<Hash32>::empty());
    }
}

} // verus!
