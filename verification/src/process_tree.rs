//! The process tree of the browser: which processes descend from our own,
//! and the total working set of the tree.
use std::collections::HashSet;
use vstd::prelude::*;
use vstd::set_lib::{lemma_len_subset, lemma_subset_equality};

verus! {

/// The processes reachable from `root` in at most `n` parent-to-child steps,
/// where `processes` lists `(pid, parent pid)` pairs.
pub open spec fn generation(root: u32, processes: Seq<(u32, u32)>, n: nat) -> Set<u32>
    decreases n,
{
    if n == 0 {
        set![root]
    } else {
        let prev = generation(root, processes, (n - 1) as nat);
        prev.union(
            Set::new(
                |x: u32|
                    exists|i: int|
                        0 <= i < processes.len() && processes[i].0 == x && prev.contains(
                            processes[i].1,
                        ),
            ),
        )
    }
}

/// `x` is `root` or descends from it through the listed parent links.
pub open spec fn in_tree(root: u32, processes: Seq<(u32, u32)>, x: u32) -> bool {
    exists|n: nat| #[trigger] generation(root, processes, n).contains(x)
}

/// Every process whose parent is in `ids` is in `ids` too.
pub open spec fn closed_under_children(ids: Set<u32>, processes: Seq<(u32, u32)>) -> bool {
    forall|i: int|
        0 <= i < processes.len() && ids.contains(#[trigger] processes[i].1) ==> ids.contains(
            processes[i].0,
        )
}

/// `root` and every listed process id: the only ids a tree can hold.
pub open spec fn known_ids(root: u32, processes: Seq<(u32, u32)>) -> Set<u32> {
    processes.map_values(|p: (u32, u32)| p.0).to_set().insert(root)
}

/// A set holding `root` and closed under children holds the whole tree.
pub proof fn lemma_closed_holds_tree(root: u32, processes: Seq<(u32, u32)>, ids: Set<u32>, n: nat)
    requires
        ids.contains(root),
        closed_under_children(ids, processes),
    ensures
        generation(root, processes, n).subset_of(ids),
    decreases n,
{
    if n > 0 {
        lemma_closed_holds_tree(root, processes, ids, (n - 1) as nat);
        let prev = generation(root, processes, (n - 1) as nat);
        assert forall|x: u32| generation(root, processes, n).contains(x) implies ids.contains(x) by {
            if !prev.contains(x) {
                let i = choose|i: int|
                    0 <= i < processes.len() && processes[i].0 == x && prev.contains(
                        processes[i].1,
                    );
                assert(ids.contains(processes[i].1));
            }
        }
    }
}

/// The tree lies within the known ids.
pub proof fn lemma_tree_known(root: u32, processes: Seq<(u32, u32)>, n: nat)
    ensures
        generation(root, processes, n).subset_of(known_ids(root, processes)),
    decreases n,
{
    if n > 0 {
        lemma_tree_known(root, processes, (n - 1) as nat);
        let prev = generation(root, processes, (n - 1) as nat);
        assert forall|x: u32| generation(root, processes, n).contains(x) implies known_ids(
            root,
            processes,
        ).contains(x) by {
            if !prev.contains(x) {
                let i = choose|i: int|
                    0 <= i < processes.len() && processes[i].0 == x && prev.contains(
                        processes[i].1,
                    );
                assert(processes.map_values(|p: (u32, u32)| p.0)[i] == x);
            }
        }
    }
}

pub proof fn lemma_known_ids_bound(root: u32, processes: Seq<(u32, u32)>)
    ensures
        known_ids(root, processes).finite(),
        known_ids(root, processes).len() <= processes.len() + 1,
{
    let pids = processes.map_values(|p: (u32, u32)| p.0);
    pids.lemma_cardinality_of_set();
    vstd::seq_lib::seq_to_set_is_finite(pids);
}

/// The ids of `root` and of all its descendants, where `processes` lists
/// `(pid, parent pid)` pairs in any order.
pub fn descendants(root: u32, processes: &[(u32, u32)]) -> (ids: HashSet<u32>)
    ensures
        forall|x: u32| ids@.contains(x) <==> in_tree(root, processes@, x),
{
    broadcast use vstd::std_specs::hash::group_hash_axioms;

    let ghost ps = processes@;
    let ghost known = known_ids(root, ps);
    proof {
        lemma_known_ids_bound(root, ps);
        assert(generation(root, ps, 0).contains(root));
    }
    let mut ids: HashSet<u32> = HashSet::new();
    ids.insert(root);
    loop
        invariant
            ps == processes@,
            known == known_ids(root, ps),
            known.finite(),
            known.len() <= ps.len() + 1,
            ids@.contains(root),
            ids@.subset_of(known),
            forall|x: u32| ids@.contains(x) ==> in_tree(root, ps, x),
        decreases known.len() - ids@.len(),
    {
        proof {
            lemma_len_subset(ids@, known);
        }
        let previous = ids.len();
        let ghost start = ids@;
        let mut i: usize = 0;
        while i < processes.len()
            invariant
                ps == processes@,
                known == known_ids(root, ps),
                known.finite(),
                start.subset_of(ids@),
                ids@.subset_of(known),
                ids@.contains(root),
                forall|x: u32| ids@.contains(x) ==> in_tree(root, ps, x),
                forall|j: int|
                    0 <= j < i && start.contains(#[trigger] ps[j].1) ==> ids@.contains(ps[j].0),
                i <= processes.len(),
            decreases processes.len() - i,
        {
            let (pid, parent) = processes[i];
            if ids.contains(&parent) {
                proof {
                    let n = choose|n: nat| #[trigger] generation(root, ps, n).contains(parent);
                    assert(generation(root, ps, n + 1).contains(pid));
                    lemma_tree_known(root, ps, n + 1);
                }
                ids.insert(pid);
            }
            i = i + 1;
        }
        proof {
            lemma_len_subset(start, ids@);
            lemma_len_subset(ids@, known);
        }
        if ids.len() == previous {
            proof {
                lemma_subset_equality(start, ids@);
                assert(closed_under_children(ids@, ps));
                assert forall|x: u32| in_tree(root, ps, x) implies ids@.contains(x) by {
                    let n = choose|n: nat| #[trigger] generation(root, ps, n).contains(x);
                    lemma_closed_holds_tree(root, ps, ids@, n);
                }
            }
            return ids;
        }
    }
}

/// Every sample is known.
pub open spec fn all_known(samples: Seq<Option<u64>>) -> bool {
    forall|i: int| 0 <= i < samples.len() ==> samples[i] is Some
}

/// The sum of the known samples.
pub open spec fn sum_known(samples: Seq<Option<u64>>) -> int
    decreases samples.len(),
{
    if samples.len() == 0 {
        0
    } else {
        sum_known(samples.drop_last()) + match samples.last() {
            Some(b) => b as int,
            None => 0int,
        }
    }
}

/// The working set of the whole tree from the working set of each process in
/// it: only a complete measurement counts, since processes can exit while
/// they are sampled.
pub fn tree_working_set(samples: &Vec<Option<u64>>) -> (r: Option<u64>)
    requires
        all_known(samples@) ==> sum_known(samples@) <= u64::MAX,
    ensures
        all_known(samples@) ==> r == Some(sum_known(samples@) as u64),
        !all_known(samples@) ==> r is None,
{
    let mut k: usize = 0;
    while k < samples.len()
        invariant
            k <= samples.len(),
            forall|j: int| 0 <= j < k ==> samples@[j] is Some,
        decreases samples.len() - k,
    {
        if samples[k].is_none() {
            return None;
        }
        k = k + 1;
    }
    let mut total: u64 = 0;
    let mut i: usize = 0;
    while i < samples.len()
        invariant
            i <= samples.len(),
            all_known(samples@),
            sum_known(samples@) <= u64::MAX,
            forall|j: int| 0 <= j < i ==> samples@[j] is Some,
            total == sum_known(samples@.subrange(0, i as int)),
        decreases samples.len() - i,
    {
        proof {
            assert(samples@.subrange(0, i + 1).drop_last() =~= samples@.subrange(0, i as int));
        }
        match samples[i] {
            Some(bytes) => {
                proof {
                    lemma_sum_known_prefix(samples@, i + 1);
                }
                total = total + bytes;
            },
            None => {
                return None;
            },
        }
        i = i + 1;
    }
    proof {
        assert(samples@.subrange(0, i as int) =~= samples@);
    }
    Some(total)
}

/// When every sample is known, a prefix sums to no more than the whole.
pub proof fn lemma_sum_known_prefix(samples: Seq<Option<u64>>, k: int)
    requires
        0 <= k <= samples.len(),
    ensures
        sum_known(samples.subrange(0, k)) <= sum_known(samples),
    decreases samples.len() - k,
{
    if k < samples.len() {
        lemma_sum_known_prefix(samples, k + 1);
        assert(samples.subrange(0, k + 1).drop_last() =~= samples.subrange(0, k));
    } else {
        assert(samples.subrange(0, k) =~= samples);
    }
}

/// The tree depends only on which `(pid, parent)` pairs are listed, not on
/// their order or repetition: children may be listed before their parents.
pub proof fn lemma_tree_ignores_order(
    root: u32,
    ps1: Seq<(u32, u32)>,
    ps2: Seq<(u32, u32)>,
    x: u32,
)
    requires
        ps1.to_set() == ps2.to_set(),
    ensures
        in_tree(root, ps1, x) == in_tree(root, ps2, x),
{
    assert forall|n: nat| generation(root, ps1, n) == generation(root, ps2, n) by {
        lemma_same_generation(root, ps1, ps2, n);
    }
    if in_tree(root, ps1, x) {
        let n = choose|n: nat| #[trigger] generation(root, ps1, n).contains(x);
        assert(generation(root, ps2, n).contains(x));
    }
    if in_tree(root, ps2, x) {
        let n = choose|n: nat| #[trigger] generation(root, ps2, n).contains(x);
        assert(generation(root, ps1, n).contains(x));
    }
}

proof fn lemma_same_generation(root: u32, ps1: Seq<(u32, u32)>, ps2: Seq<(u32, u32)>, n: nat)
    requires
        ps1.to_set() == ps2.to_set(),
    ensures
        generation(root, ps1, n) == generation(root, ps2, n),
    decreases n,
{
    if n > 0 {
        lemma_same_generation(root, ps1, ps2, (n - 1) as nat);
        let prev = generation(root, ps1, (n - 1) as nat);
        assert forall|x: u32| generation(root, ps1, n).contains(x) == generation(
            root,
            ps2,
            n,
        ).contains(x) by {
            if exists|i: int| 0 <= i < ps1.len() && ps1[i].0 == x && prev.contains(ps1[i].1) {
                let i = choose|i: int| 0 <= i < ps1.len() && ps1[i].0 == x && prev.contains(ps1[i].1);
                assert(ps1.to_set().contains(ps1[i]));
                assert(ps2.contains(ps1[i]));
                let j = choose|j: int| 0 <= j < ps2.len() && ps2[j] == ps1[i];
                assert(0 <= j < ps2.len() && ps2[j].0 == x && prev.contains(ps2[j].1));
            }
            if exists|j: int| 0 <= j < ps2.len() && ps2[j].0 == x && prev.contains(ps2[j].1) {
                let j = choose|j: int| 0 <= j < ps2.len() && ps2[j].0 == x && prev.contains(ps2[j].1);
                assert(ps2.to_set().contains(ps2[j]));
                assert(ps1.contains(ps2[j]));
                let i = choose|i: int| 0 <= i < ps1.len() && ps1[i] == ps2[j];
                assert(0 <= i < ps1.len() && ps1[i].0 == x && prev.contains(ps1[i].1));
            }
        }
        assert(generation(root, ps1, n) =~= generation(root, ps2, n));
    }
}

/// The root is always in its tree, and nothing but the root and listed
/// process ids is.
pub proof fn lemma_tree_bounds(root: u32, processes: Seq<(u32, u32)>, x: u32)
    ensures
        in_tree(root, processes, root),
        in_tree(root, processes, x) ==> known_ids(root, processes).contains(x),
{
    assert(generation(root, processes, 0).contains(root));
    if in_tree(root, processes, x) {
        let n = choose|n: nat| #[trigger] generation(root, processes, n).contains(x);
        lemma_tree_known(root, processes, n);
    }
}

/// The tree is closed under children: a listed process whose parent is in
/// the tree is in the tree.
pub proof fn lemma_tree_closed(root: u32, processes: Seq<(u32, u32)>, i: int)
    requires
        0 <= i < processes.len(),
        in_tree(root, processes, processes[i].1),
    ensures
        in_tree(root, processes, processes[i].0),
{
    let n = choose|n: nat| #[trigger] generation(root, processes, n).contains(processes[i].1);
    assert(generation(root, processes, n + 1).contains(processes[i].0));
}

} // verus!
