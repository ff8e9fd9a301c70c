use vstd::prelude::*;
use vstd::seq_lib::group_to_multiset_ensures;
use rand::seq::SliceRandom;
use crate::registry::{after_occupy, count_in_use, occupy_outcome, SlotRegistry};

verus! {

/// `order` lists every identifier below `n` exactly once.
pub open spec fn is_permutation(order: Seq<usize>, n: nat) -> bool {
    &&& order.len() == n
    &&& order.no_duplicates()
    &&& forall|i: int| 0 <= i < order.len() ==> (#[trigger] order[i]) < n
}

pub open spec fn min_nat(a: nat, b: nat) -> nat {
    if a < b {
        a
    } else {
        b
    }
}

/// Relies on rand's `SliceRandom::shuffle`, driven by the thread-local
/// generator of `rand::rng`: it only swaps elements, so the same items come
/// back in some order.
#[verifier::external_body]
fn shuffle(v: &mut Vec<usize>)
    ensures
        final(v)@.to_multiset() == old(v)@.to_multiset(),
{
    v.shuffle(&mut rand::rng());
}

/// Setting one free flag raises the count by one.
pub proof fn lemma_count_set_free(occ: Seq<bool>, i: int)
    requires
        0 <= i < occ.len(),
        !occ[i],
    ensures
        count_in_use(occ.update(i, true)) == count_in_use(occ) + 1,
    decreases occ.len(),
{
    let u = occ.update(i, true);
    if i == occ.len() - 1 {
        assert(u.drop_last() =~= occ.drop_last());
    } else {
        assert(u.drop_last() =~= occ.drop_last().update(i, true));
        lemma_count_set_free(occ.drop_last(), i);
    }
}

/// No slot set: the count is zero.
pub proof fn lemma_count_all_free(occ: Seq<bool>)
    requires
        forall|i: int| 0 <= i < occ.len() ==> !occ[i],
    ensures
        count_in_use(occ) == 0,
    decreases occ.len(),
{
    if occ.len() > 0 {
        lemma_count_all_free(occ.drop_last());
    }
}

/// A pool of `capacity` slots in which the first `min(file_count, capacity)`
/// identifiers of `order` are occupied and every other slot is free.
pub fn bootstrap_with_order(capacity: usize, file_count: usize, order: &Vec<usize>) -> (r:
    SlotRegistry)
    requires
        capacity <= 256,
        is_permutation(order@, capacity as nat),
    ensures
        r.wf(),
        r@.len() == capacity,
        count_in_use(r@) == min_nat(file_count as nat, capacity as nat),
        forall|s: int|
            0 <= s < capacity ==> (#[trigger] r@[s] <==> order@.take(
                min_nat(file_count as nat, capacity as nat) as int,
            ).contains(s as usize)),
{
    let mut reg = SlotRegistry::new(capacity);
    let k: usize = if file_count < capacity {
        file_count
    } else {
        capacity
    };
    proof {
        lemma_count_all_free(reg@);
    }
    let mut i: usize = 0;
    while i < k
        invariant
            k == min_nat(file_count as nat, capacity as nat),
            k <= capacity <= 256,
            is_permutation(order@, capacity as nat),
            i <= k,
            reg.wf(),
            reg@.len() == capacity,
            count_in_use(reg@) == i,
            forall|s: int|
                0 <= s < capacity ==> (#[trigger] reg@[s] <==> order@.take(i as int).contains(
                    s as usize,
                )),
        decreases k - i,
    {
        let id = order[i];
        let ghost before = reg@;
        proof {
            assert(!order@.take(i as int).contains(id)) by {
                if order@.take(i as int).contains(id) {
                    let j = choose|j: int| 0 <= j < i && #[trigger] order@.take(i as int)[j] == id;
                    assert(order@[j] == order@[i as int]);
                }
            }
            assert(!before[id as int]);
            lemma_count_set_free(before, id as int);
        }
        let res = reg.try_occupy(id);
        proof {
            assert(occupy_outcome(before, id as int) is Ok);
            assert(reg@ == before.update(id as int, true));
            assert(order@.take(i + 1) =~= order@.take(i as int).push(id));
            assert forall|s: int| 0 <= s < capacity implies (#[trigger] reg@[s]
                <==> order@.take(i + 1).contains(s as usize)) by {
                assert(order@.take(i + 1)[i as int] == id);
                if s == id as int {
                    assert(reg@[s]);
                    assert(order@.take(i + 1).contains(s as usize));
                } else {
                    assert(reg@[s] == before[s]);
                }
                if order@.take(i + 1).contains(s as usize) && s != id {
                    let j = choose|j: int|
                        0 <= j < i + 1 && #[trigger] order@.take(i + 1)[j] == s as usize;
                    assert(order@.take(i as int)[j] == s as usize);
                }
                if order@.take(i as int).contains(s as usize) {
                    let j = choose|j: int|
                        0 <= j < i && #[trigger] order@.take(i as int)[j] == s as usize;
                    assert(order@.take(i + 1)[j] == s as usize);
                }
            }
        }
        i = i + 1;
    }
    reg
}

/// Rebuilds the pool at start-up from the number of files already stored:
/// `min(file_count, capacity)` slots, chosen uniformly at random and without
/// repetition, are occupied; the rest are free.
pub fn bootstrap(capacity: usize, file_count: usize) -> (r: SlotRegistry)
    requires
        capacity <= 256,
    ensures
        r.wf(),
        r@.len() == capacity,
        count_in_use(r@) == min_nat(file_count as nat, capacity as nat),
        file_count == 0 ==> r@ == Seq::new(capacity as nat, |i: int| false),
{
    let mut order: Vec<usize> = Vec::new();
    let mut i: usize = 0;
    while i < capacity
        invariant
            i <= capacity,
            order@ == Seq::new(i as nat, |j: int| j as usize),
        decreases capacity - i,
    {
        order.push(i);
        i = i + 1;
        assert(order@ =~= Seq::new(i as nat, |j: int| j as usize));
    }
    let ghost before = order@;
    shuffle(&mut order);
    proof {
        broadcast use group_to_multiset_ensures;

        before.lemma_multiset_has_no_duplicates();
        order@.lemma_multiset_has_no_duplicates_conv();
        assert(order@.len() == before.len()) by {
            before.to_multiset_ensures();
            order@.to_multiset_ensures();
        }
        assert forall|j: int| 0 <= j < order@.len() implies (#[trigger] order@[j]) < capacity by {
            assert(order@.contains(order@[j]));
            assert(order@.to_multiset().count(order@[j]) > 0);
            assert(before.contains(order@[j]));
        }
    }
    let r = bootstrap_with_order(capacity, file_count, &order);
    assert(file_count == 0 ==> r@ =~= Seq::new(capacity as nat, |i: int| false));
    r
}

} // verus!
