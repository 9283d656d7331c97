//! Cluster chains as the FAT encodes them: the clusters a walk visits, chain
//! termination, and the effect of freeing a whole chain.

use vstd::prelude::*;
use crate::table::FatValue;

verus! {

/// The clusters visited when walking the FAT from `c`: `c` itself first, then
/// the successors, following `Data` links while they stay in range. Walking
/// stops after the first cluster whose slot is not a `Data` link. `fuel`
/// bounds the number of links followed, so a corrupt cyclic chain yields a
/// truncated sequence instead of none.
pub open spec fn spec_chain_from(fat: Seq<FatValue>, c: int, fuel: nat) -> Seq<int>
    decreases fuel,
{
    if !(2 <= c < fat.len()) {
        Seq::empty()
    } else {
        match fat[c] {
            FatValue::Data(next) => if fuel == 0 {
                seq![c]
            } else {
                seq![c] + spec_chain_from(fat, next as int, (fuel - 1) as nat)
            },
            _ => seq![c],
        }
    }
}

/// The chain from `c` reaches an `EndOfChain` slot within `fuel` links.
pub open spec fn spec_reaches_end(fat: Seq<FatValue>, c: int, fuel: nat) -> bool
    decreases fuel,
{
    if !(2 <= c < fat.len()) {
        false
    } else {
        match fat[c] {
            FatValue::EndOfChain => true,
            FatValue::Data(next) => fuel > 0 && spec_reaches_end(fat, next as int, (fuel - 1) as nat),
            _ => false,
        }
    }
}

/// The FAT after freeing the chain that starts at `c`: slots are freed one by
/// one along `Data` links; a slot already free stops the walk and stays as it
/// is, and any other terminal slot is freed last. `fuel` bounds the walk.
pub open spec fn spec_free_chain(fat: Seq<FatValue>, c: int, fuel: nat) -> Seq<FatValue>
    decreases fuel,
{
    if fuel == 0 || !(2 <= c < fat.len()) {
        fat
    } else {
        match fat[c] {
            FatValue::Free => fat,
            FatValue::Data(next) => spec_free_chain(
                fat.update(c, FatValue::Free),
                next as int,
                (fuel - 1) as nat,
            ),
            _ => fat.update(c, FatValue::Free),
        }
    }
}

/// Every cluster a chain walk visits is a valid data cluster of the FAT.
pub proof fn lemma_chain_members(fat: Seq<FatValue>, c: int, fuel: nat)
    ensures
        forall|i: int|
            0 <= i < spec_chain_from(fat, c, fuel).len() ==> 2 <= #[trigger] spec_chain_from(
                fat,
                c,
                fuel,
            )[i] < fat.len(),
    decreases fuel,
{
    if 2 <= c < fat.len() {
        match fat[c] {
            FatValue::Data(next) => {
                if fuel > 0 {
                    lemma_chain_members(fat, next as int, (fuel - 1) as nat);
                    let rest = spec_chain_from(fat, next as int, (fuel - 1) as nat);
                    let whole = spec_chain_from(fat, c, fuel);
                    assert forall|i: int| 0 <= i < whole.len() implies 2 <= #[trigger] whole[i]
                        < fat.len() by {
                        if i > 0 {
                            assert(whole[i] == rest[i - 1]);
                        }
                    }
                }
            },
            _ => {},
        }
    }
}

/// A sequence of clusters that visits each cluster at most once.
pub open spec fn spec_chain_distinct(ch: Seq<int>) -> bool {
    forall|i: int, j: int| 0 <= i < j < ch.len() ==> ch[i] != ch[j]
}

/// A chain that reaches its end is nonempty and its last cluster's slot is
/// `EndOfChain`.
pub proof fn lemma_chain_end(fat: Seq<FatValue>, c: int, fuel: nat)
    requires
        spec_reaches_end(fat, c, fuel),
    ensures
        spec_chain_from(fat, c, fuel).len() >= 1,
        fat[spec_chain_from(fat, c, fuel).last()] == FatValue::EndOfChain,
        spec_chain_from(fat, c, fuel)[0] == c,
    decreases fuel,
{
    match fat[c] {
        FatValue::Data(next) => {
            lemma_chain_end(fat, next as int, (fuel - 1) as nat);
            let rest = spec_chain_from(fat, next as int, (fuel - 1) as nat);
            let whole = spec_chain_from(fat, c, fuel);
            assert(whole.last() == rest.last());
        },
        _ => {},
    }
}

/// Along a chain that reaches its end, no visited cluster's slot is free.
pub proof fn lemma_chain_slots_allocated(fat: Seq<FatValue>, c: int, fuel: nat)
    requires
        spec_reaches_end(fat, c, fuel),
    ensures
        forall|i: int|
            0 <= i < spec_chain_from(fat, c, fuel).len() ==> fat[#[trigger] spec_chain_from(
                fat,
                c,
                fuel,
            )[i]] != FatValue::Free,
    decreases fuel,
{
    match fat[c] {
        FatValue::Data(next) => {
            lemma_chain_slots_allocated(fat, next as int, (fuel - 1) as nat);
            let rest = spec_chain_from(fat, next as int, (fuel - 1) as nat);
            let whole = spec_chain_from(fat, c, fuel);
            assert forall|i: int| 0 <= i < whole.len() implies fat[#[trigger] whole[i]]
                != FatValue::Free by {
                if i > 0 {
                    assert(whole[i] == rest[i - 1]);
                }
            }
        },
        _ => {},
    }
}

/// One step of walking a chain that reaches its end: from the cluster at
/// position `i`, a `Data` slot leads to the cluster at position `i + 1`, and
/// the `EndOfChain` slot is the last position. Walking therefore ends after
/// exactly as many steps as the chain has clusters.
pub proof fn lemma_chain_index_step(fat: Seq<FatValue>, head: int, fuel: nat, i: int)
    requires
        spec_reaches_end(fat, head, fuel),
        0 <= i < spec_chain_from(fat, head, fuel).len(),
    ensures
        (fat[spec_chain_from(fat, head, fuel)[i]] matches FatValue::Data(next) ==> i + 1
            < spec_chain_from(fat, head, fuel).len() && spec_chain_from(fat, head, fuel)[i + 1]
            == next as int),
        (fat[spec_chain_from(fat, head, fuel)[i]] is EndOfChain ==> i + 1 == spec_chain_from(
            fat,
            head,
            fuel,
        ).len()),
    decreases fuel,
{
    let whole = spec_chain_from(fat, head, fuel);
    match fat[head] {
        FatValue::Data(next) => {
            let rest = spec_chain_from(fat, next as int, (fuel - 1) as nat);
            lemma_chain_end(fat, next as int, (fuel - 1) as nat);
            if i == 0 {
                assert(whole[0] == head);
                assert(whole[1] == rest[0]);
            } else {
                lemma_chain_index_step(fat, next as int, (fuel - 1) as nat, i - 1);
                assert(whole[i] == rest[i - 1]);
                if i + 1 < whole.len() {
                    assert(whole[i + 1] == rest[i]);
                }
            }
        },
        _ => {},
    }
}

/// Extending a chain: when the walk from `head` ends at `p`, marking a free
/// cluster `c` end-of-chain and linking `p` to it yields a walk that visits
/// the same clusters and then `c`, and still reaches an end.
pub proof fn lemma_chain_extend(
    fat: Seq<FatValue>,
    fat2: Seq<FatValue>,
    head: int,
    p: int,
    c: int,
    fuel: nat,
)
    requires
        spec_reaches_end(fat, head, fuel),
        spec_chain_from(fat, head, fuel).last() == p,
        2 <= c < fat.len(),
        fat.len() <= 0xFFFF_FFFF,
        fat[c] == FatValue::Free,
        fat2 == fat.update(c, FatValue::EndOfChain).update(p, FatValue::Data(c as u32)),
    ensures
        spec_reaches_end(fat2, head, (fuel + 1) as nat),
        spec_chain_from(fat2, head, (fuel + 1) as nat) == spec_chain_from(fat, head, fuel).push(
            c,
        ),
    decreases fuel,
{
    lemma_chain_end(fat, head, fuel);
    lemma_chain_members(fat, head, fuel);
    assert(2 <= p < fat.len()) by {
        let ch = spec_chain_from(fat, head, fuel);
        assert(ch[ch.len() - 1] == p);
    };
    assert(fat2.len() == fat.len());
    match fat[head] {
        FatValue::EndOfChain => {
            assert(p == head);
            assert(c != head);
            assert(spec_chain_from(fat2, c, fuel) =~= seq![c]);
            assert(spec_reaches_end(fat2, c as int, fuel));
            assert(spec_reaches_end(fat2, head, (fuel + 1) as nat));
            assert(fat2[head] == FatValue::Data(c as u32));
            assert(fat2[c] == FatValue::EndOfChain);
            assert(spec_chain_from(fat2, head, (fuel + 1) as nat) =~= spec_chain_from(
                fat,
                head,
                fuel,
            ).push(c));
        },
        FatValue::Data(next) => {
            let rest = spec_chain_from(fat, next as int, (fuel - 1) as nat);
            let whole = spec_chain_from(fat, head, fuel);
            lemma_chain_end(fat, next as int, (fuel - 1) as nat);
            assert(whole.last() == rest.last());
            assert(p != head);
            assert(c != head);
            lemma_chain_extend(fat, fat2, next as int, p, c, (fuel - 1) as nat);
            assert(fat2[head] == FatValue::Data(next));
            assert(spec_reaches_end(fat2, next as int, fuel));
            assert(spec_reaches_end(fat2, head, (fuel + 1) as nat));
            assert(spec_chain_from(fat2, head, (fuel + 1) as nat) =~= spec_chain_from(
                fat,
                head,
                fuel,
            ).push(c));
        },
        _ => {},
    }
}

/// The freshly linked cluster was free, so the old chain never visited it: a
/// chain that visited each cluster at most once still does so once extended.
pub proof fn lemma_chain_extend_distinct(fat: Seq<FatValue>, head: int, c: int, fuel: nat)
    requires
        spec_reaches_end(fat, head, fuel),
        fat[c] == FatValue::Free,
        spec_chain_distinct(spec_chain_from(fat, head, fuel)),
    ensures
        spec_chain_distinct(spec_chain_from(fat, head, fuel).push(c)),
{
    lemma_chain_slots_allocated(fat, head, fuel);
    let ch = spec_chain_from(fat, head, fuel);
    let ext = ch.push(c);
    assert forall|i: int, j: int| 0 <= i < j < ext.len() implies ext[i] != ext[j] by {
        if j < ch.len() {
            assert(ext[i] == ch[i] && ext[j] == ch[j]);
        } else {
            assert(ext[j] == c && ext[i] == ch[i]);
            assert(fat[ch[i]] != FatValue::Free);
        }
    }
}

/// How many slots freeing the chain that starts at `c` frees.
pub open spec fn spec_free_chain_count(fat: Seq<FatValue>, c: int, fuel: nat) -> int
    decreases fuel,
{
    if fuel == 0 || !(2 <= c < fat.len()) {
        0
    } else {
        match fat[c] {
            FatValue::Free => 0,
            FatValue::Data(next) => 1 + spec_free_chain_count(
                fat.update(c, FatValue::Free),
                next as int,
                (fuel - 1) as nat,
            ),
            _ => 1,
        }
    }
}

} // verus!
