//! The process tree of a sandbox: which processes belong to it, which ones a
//! kill has to reach, and how much memory they use together.

use crate::executor::MacOSExecutor;
use std::collections::HashSet;
use vstd::prelude::*;

verus! {

/// Query kind of `proc_listpids`: the members of a process group.
pub const PROC_PGRP_ONLY: u32 = 2;

/// Query kind of `proc_listpids`: the children of a process.
pub const PROC_PPID_ONLY: u32 = 6;

/// Number of distinct `i32` values.
const PID_VALUES: u64 = 0x1_0000_0000;

/// `path` leads from the root, or from a member of its group, down parent
/// links: each process on it is a listed child of the one before.
pub open spec fn is_descent(
    root: i32,
    group: Seq<i32>,
    children: Map<i32, Vec<i32>>,
    path: Seq<i32>,
) -> bool {
    &&& path.len() > 0
    &&& path[0] == root || group.contains(path[0])
    &&& forall|i: int|
        #![trigger path[i]]
        0 <= i < path.len() - 1 ==> {
            &&& children.dom().contains(path[i])
            &&& children[path[i]]@.contains(path[i + 1])
        }
}

/// `pid` is the root, in its group, or a descendant of one of those.
pub open spec fn in_tree(
    root: i32,
    group: Seq<i32>,
    children: Map<i32, Vec<i32>>,
    pid: i32,
) -> bool {
    exists|path: Seq<i32>| #[trigger]
        is_descent(root, group, children, path) && path.last() == pid
}

/// The walk over the process table got `group` and `children` as answers to
/// its queries and found `pids`. Every process found was asked for its
/// children, and `pids` is exactly the tree that the answers span.
pub open spec fn is_walk<L: Fn(u32, u32) -> Vec<i32>>(
    list: L,
    root: i32,
    group: Vec<i32>,
    children: Map<i32, Vec<i32>>,
    pids: Seq<i32>,
) -> bool {
    &&& call_ensures(list, (PROC_PGRP_ONLY, root as u32), group)
    &&& children.dom() == pids.to_set()
    &&& forall|pid: i32| #[trigger]
        children.dom().contains(pid) ==> call_ensures(
            list,
            (PROC_PPID_ONLY, pid as u32),
            children[pid],
        )
    &&& pids.no_duplicates()
    &&& forall|pid: i32| #[trigger]
        pids.contains(pid) <==> in_tree(root, group@, children, pid)
}

/// `pids` is the process tree of `root` as `list` reported it.
pub open spec fn is_process_tree<L: Fn(u32, u32) -> Vec<i32>>(
    list: L,
    root: i32,
    pids: Seq<i32>,
) -> bool {
    exists|group: Vec<i32>, children: Map<i32, Vec<i32>>| #[trigger]
        is_walk(list, root, group, children, pids)
}

proof fn lemma_distinct_pids_bounded(pids: Seq<i32>)
    requires
        pids.no_duplicates(),
    ensures
        pids.len() <= PID_VALUES,
{
    let ints = pids.map_values(|pid: i32| pid as int);
    assert(ints.no_duplicates());
    ints.unique_seq_to_set();
    let lo = i32::MIN as int;
    let hi = i32::MAX + 1;
    vstd::set_lib::lemma_int_range(lo, hi);
    assert(ints.to_set().subset_of(vstd::set_lib::set_int_range(lo, hi)));
    vstd::set_lib::lemma_len_subset(ints.to_set(), vstd::set_lib::set_int_range(lo, hi));
}

/// Processes met so far, in the order in which they were met, and those among
/// them whose children were not asked for yet.
struct Frontier {
    seen: HashSet<i32>,
    found: Vec<i32>,
    pending: Vec<i32>,
}

impl Frontier {
    spec fn wf(&self) -> bool {
        &&& self.seen@ == self.found@.to_set()
        &&& self.found@.no_duplicates()
        &&& self.pending@.no_duplicates()
        &&& self.pending@.to_set().subset_of(self.found@.to_set())
    }

    fn new(root: i32) -> (frontier: Self)
        ensures
            frontier.wf(),
            frontier.found@ == seq![root],
            frontier.pending@ == seq![root],
    {
        broadcast use vstd::std_specs::hash::group_hash_axioms;

        let mut seen: HashSet<i32> = HashSet::new();
        let mut found: Vec<i32> = Vec::new();
        let mut pending: Vec<i32> = Vec::new();
        seen.insert(root);
        found.push(root);
        pending.push(root);
        assert(found@ == seq![root]);
        assert(found@.to_set() == seen@) by {
            assert(found@.contains(found@[0]));
        }
        Frontier { seen, found, pending }
    }

    /// Adds the processes of `pids` that were not met before.
    fn absorb(&mut self, pids: &Vec<i32>)
        requires
            old(self).wf(),
        ensures
            final(self).wf(),
            final(self).found@.to_set() == old(self).found@.to_set().union(pids@.to_set()),
            final(self).pending@.to_set() == old(self).pending@.to_set().union(
                pids@.to_set().difference(old(self).found@.to_set()),
            ),
            final(self).found@.len() >= old(self).found@.len(),
            final(self).found@.len() - old(self).found@.len() == final(self).pending@.len()
                - old(self).pending@.len(),
    {
        broadcast use vstd::std_specs::hash::group_hash_axioms;

        let mut i: usize = 0;
        assert(pids@.take(0).to_set() =~= Set::empty());
        while i < pids.len()
            invariant
                i <= pids.len(),
                old(self).wf(),
                self.wf(),
                self.found@.to_set() == old(self).found@.to_set().union(
                    pids@.take(i as int).to_set(),
                ),
                self.pending@.to_set() == old(self).pending@.to_set().union(
                    pids@.take(i as int).to_set().difference(old(self).found@.to_set()),
                ),
                self.found@.len() >= old(self).found@.len(),
                self.found@.len() - old(self).found@.len() == self.pending@.len() - old(
                    self,
                ).pending@.len(),
            decreases pids.len() - i,
        {
            let pid: i32 = pids[i];
            let ghost found = self.found@;
            let ghost pending = self.pending@;
            let fresh = self.seen.insert(pid);
            assert(pids@.take(i + 1) == pids@.take(i as int).push(pid));
            proof {
                pids@.take(i as int).lemma_push_to_set_commute(pid);
                found.lemma_push_to_set_commute(pid);
                pending.lemma_push_to_set_commute(pid);
            }
            if fresh {
                self.found.push(pid);
                self.pending.push(pid);
                assert(!found.contains(pid));
                assert(!pending.to_set().contains(pid));
            }
            assert(self.found@.to_set() == found.to_set().insert(pid));
            i += 1;
        }
        assert(pids@.take(i as int) == pids@);
    }
}

proof fn lemma_in_tree_grows(
    root: i32,
    group: Seq<i32>,
    children: Map<i32, Vec<i32>>,
    asked: i32,
    answer: Vec<i32>,
    pid: i32,
)
    requires
        !children.dom().contains(asked),
        in_tree(root, group, children, pid),
    ensures
        in_tree(root, group, children.insert(asked, answer), pid),
{
    let path = choose|path: Seq<i32>| #[trigger]
        is_descent(root, group, children, path) && path.last() == pid;
    assert(is_descent(root, group, children.insert(asked, answer), path));
}

proof fn lemma_listed_child_in_tree(
    root: i32,
    group: Seq<i32>,
    children: Map<i32, Vec<i32>>,
    parent: i32,
    child: i32,
)
    requires
        in_tree(root, group, children, parent),
        children.dom().contains(parent),
        children[parent]@.contains(child),
    ensures
        in_tree(root, group, children, child),
{
    let path = choose|path: Seq<i32>| #[trigger]
        is_descent(root, group, children, path) && path.last() == parent;
    let longer = path.push(child);
    assert forall|i: int| #![trigger longer[i]] 0 <= i < longer.len() - 1 implies {
        &&& children.dom().contains(longer[i])
        &&& children[longer[i]]@.contains(longer[i + 1])
    } by {
        assert(longer[i] == path[i]);
        if i < path.len() - 1 {
            assert(longer[i + 1] == path[i + 1]);
        }
    }
    assert(is_descent(root, group, children, longer));
    assert(longer.last() == child);
}

proof fn lemma_closed_holds_descent(
    root: i32,
    group: Seq<i32>,
    children: Map<i32, Vec<i32>>,
    pids: Set<i32>,
    path: Seq<i32>,
    i: int,
)
    requires
        is_descent(root, group, children, path),
        pids.contains(root),
        forall|pid: i32| #[trigger] group.contains(pid) ==> pids.contains(pid),
        forall|parent: i32, child: i32|
            #![trigger children[parent]@.contains(child)]
            pids.contains(parent) && children.dom().contains(parent) && children[parent]@.contains(
                child,
            ) ==> pids.contains(child),
        0 <= i < path.len(),
    ensures
        pids.contains(path[i]),
    decreases i,
{
    if i > 0 {
        lemma_closed_holds_descent(root, group, children, pids, path, i - 1);
        assert(children[path[i - 1]]@.contains(path[i - 1 + 1]));
    }
}

/// The processes found are the least set that holds the root and its group and
/// is closed under the children that were reported.
proof fn lemma_walk_is_least_closed<L: Fn(u32, u32) -> Vec<i32>>(
    list: L,
    root: i32,
    group: Vec<i32>,
    children: Map<i32, Vec<i32>>,
    pids: Seq<i32>,
)
    requires
        is_walk(list, root, group, children, pids),
    ensures
        call_ensures(list, (2u32, root as u32), group),
        forall|pid: i32| #[trigger]
            pids.contains(pid) ==> call_ensures(list, (6u32, pid as u32), children[pid]),
        pids.contains(root),
        forall|pid: i32| #[trigger] group@.contains(pid) ==> pids.contains(pid),
        forall|parent: i32, child: i32|
            #![trigger children[parent]@.contains(child)]
            pids.contains(parent) && children[parent]@.contains(child) ==> pids.contains(child),
        forall|closed: Set<i32>, pid: i32|
            #![trigger closed.contains(pid)]
            {
                &&& closed.contains(root)
                &&& forall|member: i32| #[trigger]
                    group@.contains(member) ==> closed.contains(member)
                &&& forall|parent: i32, child: i32|
                    #![trigger children[parent]@.contains(child)]
                    closed.contains(parent) && pids.contains(parent) && children[parent]@.contains(
                        child,
                    ) ==> closed.contains(child)
            } && pids.contains(pid) ==> closed.contains(pid),
{
    assert forall|pid: i32| #[trigger] pids.contains(pid) implies call_ensures(
        list,
        (6u32, pid as u32),
        children[pid],
    ) by {
        assert(children.dom().contains(pid));
    }
    law_tree_is_closed(list, root, group, children, pids);
    assert forall|closed: Set<i32>, pid: i32|
        #![trigger closed.contains(pid)]
        {
            &&& closed.contains(root)
            &&& forall|member: i32| #[trigger]
                group@.contains(member) ==> closed.contains(member)
            &&& forall|parent: i32, child: i32|
                #![trigger children[parent]@.contains(child)]
                closed.contains(parent) && pids.contains(parent) && children[parent]@.contains(
                    child,
                ) ==> closed.contains(child)
        } && pids.contains(pid) implies closed.contains(pid) by {
        assert forall|parent: i32, child: i32|
            #![trigger children[parent]@.contains(child)]
            closed.contains(parent) && children.dom().contains(parent)
                && children[parent]@.contains(child) implies closed.contains(child) by {
            assert(pids.to_set().contains(parent));
        }
        law_tree_is_least(list, root, group, children, pids, closed);
        assert(pids.to_set().contains(pid));
    }
}

impl MacOSExecutor {
    /// The root process, its process group and all descendants. Descendants that
    /// leave the group (setsid/setpgid) are found through parent links; ones
    /// orphaned to launchd are not, macOS has no cgroup-style way to find them.
    ///
    /// `list` answers a query on the process table: a query kind and its
    /// argument give the matching process ids.
    pub fn sandbox_pids<L: Fn(u32, u32) -> Vec<i32>>(root: i32, list: &L) -> (pids: Vec<i32>)
        requires
            forall|kind: u32, arg: u32| #[trigger] call_requires(*list, (kind, arg)),
        ensures
            is_process_tree(*list, root, pids@),
            pids@.no_duplicates(),
            exists|group: Vec<i32>, children: Map<i32, Vec<i32>>|
                #![trigger call_ensures(*list, (2u32, root as u32), group), children.dom()]
                {
                    // the answers to the group query and to each child query
                    &&& call_ensures(*list, (2u32, root as u32), group)
                    &&& forall|pid: i32| #[trigger]
                        pids@.contains(pid) ==> call_ensures(
                            *list,
                            (6u32, pid as u32),
                            children[pid],
                        )
                    // the tree holds the root, the group and all children
                    &&& pids@.contains(root)
                    &&& forall|pid: i32| #[trigger]
                        group@.contains(pid) ==> pids@.contains(pid)
                    &&& forall|parent: i32, child: i32|
                        #![trigger children[parent]@.contains(child)]
                        pids@.contains(parent) && children[parent]@.contains(child)
                            ==> pids@.contains(child)
                    // and lies in every set that does
                    &&& forall|closed: Set<i32>, pid: i32|
                        #![trigger closed.contains(pid)]
                        {
                            &&& closed.contains(root)
                            &&& forall|member: i32| #[trigger]
                                group@.contains(member) ==> closed.contains(member)
                            &&& forall|parent: i32, child: i32|
                                #![trigger children[parent]@.contains(child)]
                                closed.contains(parent) && pids@.contains(parent)
                                    && children[parent]@.contains(child) ==> closed.contains(child)
                        } && pids@.contains(pid) ==> closed.contains(pid)
                },
    {
        let mut frontier = Frontier::new(root);
        let ghost mut children: Map<i32, Vec<i32>> = Map::empty();
        let group = list(PROC_PGRP_ONLY, root as u32);
        assert(frontier.found@.contains(frontier.found@[0]));
        frontier.absorb(&group);
        proof {
            lemma_distinct_pids_bounded(frontier.found@);
            assert forall|pid: i32| #[trigger] frontier.found@.contains(pid) implies in_tree(
                root,
                group@,
                children,
                pid,
            ) by {
                assert(frontier.found@.to_set().contains(pid));
                assert(is_descent(root, group@, children, seq![pid]));
                assert(seq![pid].last() == pid);
            }
        }
        while frontier.pending.len() > 0
            invariant
                forall|kind: u32, arg: u32| #[trigger] call_requires(*list, (kind, arg)),
                frontier.wf(),
                frontier.found@.len() <= PID_VALUES,
                call_ensures(*list, (PROC_PGRP_ONLY, root as u32), group),
                frontier.found@.to_set().contains(root),
                group@.to_set().subset_of(frontier.found@.to_set()),
                children.dom() == frontier.found@.to_set().difference(frontier.pending@.to_set()),
                forall|pid: i32| #[trigger]
                    children.dom().contains(pid) ==> call_ensures(
                        *list,
                        (PROC_PPID_ONLY, pid as u32),
                        children[pid],
                    ),
                forall|parent: i32, child: i32|
                    #![trigger children[parent]@.contains(child)]
                    children.dom().contains(parent) && children[parent]@.contains(child)
                        ==> frontier.found@.to_set().contains(child),
                forall|pid: i32| #[trigger]
                    frontier.found@.contains(pid) ==> in_tree(root, group@, children, pid),
            decreases 2 * (PID_VALUES - frontier.found@.len()) + frontier.pending@.len(),
        {
            let ghost before = frontier;
            let ghost answered = children;
            if let Some(pid) = frontier.pending.pop() {
                proof {
                    assert(before.pending@ == frontier.pending@.push(pid));
                    frontier.pending@.lemma_push_to_set_commute(pid);
                    assert(before.pending@.to_set().contains(pid));
                    assert(!frontier.pending@.contains(pid)) by {
                        if frontier.pending@.contains(pid) {
                            let k = frontier.pending@.index_of(pid);
                            assert(before.pending@[k] == before.pending@.last());
                        }
                    }
                    assert(frontier.found@.contains(pid));
                }
                let answer = list(PROC_PPID_ONLY, pid as u32);
                frontier.absorb(&answer);
                proof {
                    children = children.insert(pid, answer);
                    lemma_distinct_pids_bounded(frontier.found@);
                    assert forall|p: i32| #[trigger] frontier.found@.contains(p) implies in_tree(
                        root,
                        group@,
                        children,
                        p,
                    ) by {
                        lemma_in_tree_grows(root, group@, answered, pid, answer, pid);
                        if before.found@.contains(p) {
                            lemma_in_tree_grows(root, group@, answered, pid, answer, p);
                        } else {
                            assert(frontier.found@.to_set().contains(p));
                            assert(!before.found@.to_set().contains(p));
                            assert(answer@.to_set().contains(p));
                            lemma_listed_child_in_tree(root, group@, children, pid, p);
                        }
                    }
                    assert forall|parent: i32, child: i32|
                        #![trigger children[parent]@.contains(child)]
                        children.dom().contains(parent)
                            && children[parent]@.contains(child) implies frontier.found@.to_set().contains(
                    child) by {
                        if parent == pid {
                            assert(answer@.to_set().contains(child));
                        } else {
                            assert(answered[parent]@.contains(child));
                        }
                    }
                }
            }
        }
        proof {
            assert(frontier.pending@.to_set() =~= Set::empty());
            assert(children.dom() =~= frontier.found@.to_set());
            assert forall|pid: i32| #[trigger]
                frontier.found@.contains(pid) <==> in_tree(root, group@, children, pid) by {
                if in_tree(root, group@, children, pid) {
                    let path = choose|path: Seq<i32>| #[trigger]
                        is_descent(root, group@, children, path) && path.last() == pid;
                    assert forall|p: i32| #[trigger]
                        group@.contains(p) implies frontier.found@.to_set().contains(p) by {
                        assert(group@.to_set().contains(p));
                    }
                    lemma_closed_holds_descent(
                        root,
                        group@,
                        children,
                        frontier.found@.to_set(),
                        path,
                        path.len() - 1,
                    );
                    assert(frontier.found@.to_set().contains(pid));
                }
            }
            assert(is_walk(*list, root, group, children, frontier.found@));
            lemma_walk_is_least_closed(*list, root, group, children, frontier.found@);
            assert(children.dom() == frontier.found@.to_set());
        }
        frontier.found
    }
}

/// Slots beyond the announced count, for processes started between two queries.
pub const SPARE_PID_SLOTS: usize = 16;

/// Room for one listing, in which a process id takes four bytes: the number of
/// process ids and the number of bytes that is announced to the kernel.
pub struct PidBuffer {
    pub slots: usize,
    pub bytes: i32,
}

/// The value that a C `int` holds after a byte count below 2^32 is cast to it.
pub open spec fn as_c_int(count: int) -> int {
    if count <= i32::MAX {
        count
    } else {
        count - 0x1_0000_0000
    }
}

/// The process ids in a listing of which the kernel wrote `bytes` bytes:
/// whole slots only, and only those that hold a process.
pub open spec fn written_pids(buffer: Seq<i32>, bytes: int) -> Seq<i32> {
    if bytes <= 0 {
        Seq::empty()
    } else if bytes / 4 <= buffer.len() {
        buffer.take(bytes / 4).filter(|pid: i32| pid > 0)
    } else {
        buffer.filter(|pid: i32| pid > 0)
    }
}

/// Memory used by processes together; one that could not be read counts as zero.
pub open spec fn footprint_sum(readings: Seq<Option<u64>>) -> nat
    decreases readings.len(),
{
    if readings.len() == 0 {
        0
    } else {
        footprint_sum(readings.drop_last()) + match readings.last() {
            Some(bytes) => bytes as nat,
            None => 0,
        }
    }
}

proof fn lemma_footprint_sum_monotone(readings: Seq<Option<u64>>, i: int)
    requires
        0 <= i <= readings.len(),
    ensures
        footprint_sum(readings.take(i)) <= footprint_sum(readings),
    decreases readings.len(),
{
    if i == readings.len() {
        assert(readings.take(i) == readings);
    } else {
        lemma_footprint_sum_monotone(readings.drop_last(), i);
        assert(readings.drop_last().take(i) == readings.take(i));
    }
}

/// `total` is the memory of the process tree of `root`, as `list` and `read`
/// reported them, or `None` where the sum does not fit.
pub open spec fn is_tree_footprint<
    L: Fn(u32, u32) -> Vec<i32>,
    R: Fn(i32) -> Option<u64>,
>(list: L, read: R, root: i32, total: Option<u64>) -> bool {
    exists|pids: Seq<i32>, readings: Seq<Option<u64>>|
        {
            &&& #[trigger] is_process_tree(list, root, pids)
            &&& #[trigger] are_readings(read, pids, readings)
            &&& total == checked_total(readings)
        }
}

/// `read` reported `readings[i]` for the process `pids[i]`.
pub open spec fn are_readings<R: Fn(i32) -> Option<u64>>(
    read: R,
    pids: Seq<i32>,
    readings: Seq<Option<u64>>,
) -> bool {
    &&& readings.len() == pids.len()
    &&& forall|i: int|
        0 <= i < pids.len() ==> call_ensures(read, (pids[i],), #[trigger] readings[i])
}

/// The sum of the readings, where it fits into 64 bits.
pub open spec fn checked_total(readings: Seq<Option<u64>>) -> Option<u64> {
    if footprint_sum(readings) <= u64::MAX {
        Some(footprint_sum(readings) as u64)
    } else {
        None
    }
}

impl MacOSExecutor {
    /// The buffer for a listing that the kernel announced with `bytes` bytes,
    /// or `None` where it announced nothing or failed.
    pub fn pid_buffer(bytes: i32) -> (buffer: Option<PidBuffer>)
        ensures
            buffer is Some <==> bytes > 0,
            buffer matches Some(b) ==> b.bytes == (if b.slots * 4 <= 0x7fff_ffff {
                b.slots * 4
            } else {
                b.slots * 4 - 0x1_0000_0000
            }),
            buffer matches Some(b) ==> b.slots == bytes / 4 + 16 && b.bytes == as_c_int(
                b.slots * 4,
            ) && b.slots * 4 > bytes,
    {
        if bytes <= 0 {
            return None;
        }
        let slots: usize = (bytes / 4) as usize + SPARE_PID_SLOTS;
        let total: u32 = slots as u32 * 4;
        let announced: i32 = #[verifier::truncate] (total as i32);
        assert(total <= 0x7fff_ffff ==> total as i32 == total) by (bit_vector);
        assert(total > 0x7fff_ffff ==> total as i32 == total - 0x1_0000_0000) by (bit_vector);
        Some(PidBuffer { slots, bytes: announced })
    }

    /// The process ids in a listing of which the kernel wrote `bytes` bytes.
    pub fn reported_pids(buffer: &[i32], bytes: i32) -> (pids: Vec<i32>)
        ensures
            pids@ == written_pids(buffer@, bytes as int),
            forall|pid: i32| #[trigger] pids@.contains(pid) ==> pid > 0,
    {
        let mut pids: Vec<i32> = Vec::new();
        if bytes <= 0 {
            return pids;
        }
        let written: usize = (bytes / 4) as usize;
        let end: usize = if written <= buffer.len() { written } else { buffer.len() };
        let ghost live = |pid: i32| pid > 0;
        let mut i: usize = 0;
        assert(buffer@.take(0).filter(live) =~= Seq::empty());
        while i < end
            invariant
                i <= end <= buffer.len(),
                live == (|pid: i32| pid > 0),
                pids@ == buffer@.take(i as int).filter(live),
                forall|k: int| 0 <= k < pids@.len() ==> #[trigger] pids@[k] > 0,
            decreases end - i,
        {
            let pid: i32 = buffer[i];
            assert(buffer@.take(i + 1) == buffer@.take(i as int).push(pid));
            proof {
                buffer@.take(i as int).lemma_filter_push(pid, live);
            }
            if pid > 0 {
                pids.push(pid);
            }
            i += 1;
        }
        assert(buffer@.take(buffer@.len() as int) == buffer@);
        pids
    }

    /// The targets of a kill that reaches the sandbox's whole process tree:
    /// each process of the tree, then the root's process group.
    pub fn kill_targets<L: Fn(u32, u32) -> Vec<i32>>(root: i32, list: &L) -> (targets: Vec<i32>)
        requires
            forall|kind: u32, arg: u32| #[trigger] call_requires(*list, (kind, arg)),
            root > i32::MIN,
        ensures
            targets@.len() > 0,
            is_process_tree(*list, root, targets@.drop_last()),
            targets@.last() == -root,
            targets@.drop_last().no_duplicates(),
            exists|group: Vec<i32>, children: Map<i32, Vec<i32>>|
                #![trigger call_ensures(*list, (2u32, root as u32), group), children.dom()]
                {
                    // the answers to the group query and to each child query
                    &&& call_ensures(*list, (2u32, root as u32), group)
                    &&& forall|pid: i32| #[trigger]
                        targets@.drop_last().contains(pid) ==> call_ensures(
                            *list,
                            (6u32, pid as u32),
                            children[pid],
                        )
                    // the tree holds the root, the group and all children
                    &&& targets@.drop_last().contains(root)
                    &&& forall|pid: i32| #[trigger]
                        group@.contains(pid) ==> targets@.drop_last().contains(pid)
                    &&& forall|parent: i32, child: i32|
                        #![trigger children[parent]@.contains(child)]
                        targets@.drop_last().contains(parent) && children[parent]@.contains(child)
                            ==> targets@.drop_last().contains(child)
                    // and lies in every set that does
                    &&& forall|closed: Set<i32>, pid: i32|
                        #![trigger closed.contains(pid)]
                        {
                            &&& closed.contains(root)
                            &&& forall|member: i32| #[trigger]
                                group@.contains(member) ==> closed.contains(member)
                            &&& forall|parent: i32, child: i32|
                                #![trigger children[parent]@.contains(child)]
                                closed.contains(parent) && targets@.drop_last().contains(parent)
                                    && children[parent]@.contains(child) ==> closed.contains(child)
                        } && targets@.drop_last().contains(pid) ==> closed.contains(pid)
                },
    {
        let mut targets = Self::sandbox_pids(root, list);
        let ghost pids = targets@;
        targets.push(-root);
        assert(targets@.drop_last() == pids);
        proof {
            let (group, children) = choose|group: Vec<i32>, children: Map<i32, Vec<i32>>| #[trigger]
                is_walk(*list, root, group, children, pids);
            lemma_walk_is_least_closed(*list, root, group, children, pids);
            assert(children.dom() == pids.to_set());
        }
        targets
    }

    /// The sum of the readings, or `None` where it does not fit.
    pub fn total_footprint(readings: &[Option<u64>]) -> (total: Option<u64>)
        ensures
            total == checked_total(readings@),
            footprint_sum(readings@) <= 0xffff_ffff_ffff_ffff ==> (total matches Some(bytes)
                && bytes == footprint_sum(readings@)),
            footprint_sum(readings@) > 0xffff_ffff_ffff_ffff ==> total is None,
    {
        let mut total: u64 = 0;
        let mut i: usize = 0;
        while i < readings.len()
            invariant
                i <= readings.len(),
                total == footprint_sum(readings@.take(i as int)),
            decreases readings.len() - i,
        {
            assert(readings@.take(i + 1).drop_last() == readings@.take(i as int));
            proof {
                lemma_footprint_sum_monotone(readings@, i + 1);
            }
            let bytes: u64 = match readings[i] {
                Some(bytes) => bytes,
                None => 0,
            };
            match total.checked_add(bytes) {
                Some(sum) => {
                    total = sum;
                },
                None => {
                    return None;
                },
            }
            i += 1;
        }
        assert(readings@.take(i as int) == readings@);
        Some(total)
    }

    /// Physical footprint summed over the process tree. `read` gives the
    /// footprint of one process, or `None` where it cannot be read.
    pub fn tree_footprint<L: Fn(u32, u32) -> Vec<i32>, R: Fn(i32) -> Option<u64>>(
        root: i32,
        list: &L,
        read: &R,
    ) -> (total: Option<u64>)
        requires
            forall|kind: u32, arg: u32| #[trigger] call_requires(*list, (kind, arg)),
            forall|pid: i32| #[trigger] call_requires(*read, (pid,)),
        ensures
            is_tree_footprint(*list, *read, root, total),
            exists|pids: Seq<i32>, readings: Seq<Option<u64>>|
                {
                    &&& #[trigger] is_process_tree(*list, root, pids)
                    &&& readings.len() == pids.len()
                    &&& forall|i: int|
                        0 <= i < pids.len() ==> call_ensures(
                            *read,
                            (pids[i],),
                            #[trigger] readings[i],
                        )
                    &&& #[trigger] footprint_sum(readings) <= 0xffff_ffff_ffff_ffff
                        ==> (total matches Some(bytes) && bytes == footprint_sum(readings))
                    &&& footprint_sum(readings) > 0xffff_ffff_ffff_ffff ==> total is None
                },
    {
        let pids = Self::sandbox_pids(root, list);
        let mut readings: Vec<Option<u64>> = Vec::new();
        let mut i: usize = 0;
        while i < pids.len()
            invariant
                forall|pid: i32| #[trigger] call_requires(*read, (pid,)),
                i <= pids.len(),
                readings.len() == i,
                forall|j: int|
                    0 <= j < i ==> call_ensures(*read, (pids@[j],), #[trigger] readings@[j]),
            decreases pids.len() - i,
        {
            readings.push(read(pids[i]));
            i += 1;
        }
        assert(are_readings(*read, pids@, readings@));
        let total = Self::total_footprint(readings.as_slice());
        assert(is_process_tree(*list, root, pids@));
        total
    }
}

/// The memory of every process in the tree counts: the sum is at least that of
/// any one of them.
pub proof fn law_every_process_counts(readings: Seq<Option<u64>>, i: int)
    requires
        0 <= i < readings.len(),
    ensures
        readings[i] matches Some(bytes) ==> bytes <= footprint_sum(readings),
{
    lemma_footprint_sum_monotone(readings, i + 1);
    assert(readings.take(i + 1).last() == readings[i]);
}

/// What the walk finds depends on the answers alone: two walks that got the
/// same answers found the same processes.
pub proof fn law_tree_is_determined<L: Fn(u32, u32) -> Vec<i32>>(
    list: L,
    root: i32,
    group: Vec<i32>,
    children: Map<i32, Vec<i32>>,
    pids: Seq<i32>,
    others: Seq<i32>,
)
    requires
        is_walk(list, root, group, children, pids),
        is_walk(list, root, group, children, others),
    ensures
        pids.to_set() == others.to_set(),
        pids.len() == others.len(),
{
    pids.unique_seq_to_set();
    others.unique_seq_to_set();
}

/// The root, the members of its group and the children of every process found
/// are found, so a process that left the group is reached through its parent.
pub proof fn law_tree_is_closed<L: Fn(u32, u32) -> Vec<i32>>(
    list: L,
    root: i32,
    group: Vec<i32>,
    children: Map<i32, Vec<i32>>,
    pids: Seq<i32>,
)
    requires
        is_walk(list, root, group, children, pids),
    ensures
        pids.contains(root),
        forall|pid: i32| #[trigger] group@.contains(pid) ==> pids.contains(pid),
        forall|parent: i32, child: i32|
            #![trigger children[parent]@.contains(child)]
            pids.contains(parent) && children[parent]@.contains(child) ==> pids.contains(child),
{
    assert(is_descent(root, group@, children, seq![root]));
    assert(seq![root].last() == root);
    assert forall|pid: i32| #[trigger] group@.contains(pid) implies pids.contains(pid) by {
        assert(is_descent(root, group@, children, seq![pid]));
        assert(seq![pid].last() == pid);
    }
    assert forall|parent: i32, child: i32|
        #![trigger children[parent]@.contains(child)]
        pids.contains(parent) && children[parent]@.contains(child) implies pids.contains(child) by {
        assert(pids.to_set().contains(parent));
        lemma_listed_child_in_tree(root, group@, children, parent, child);
    }
}

/// The processes found are the least set that holds the root and its group and
/// is closed under the listed children: nothing outside the tree is killed or
/// counted.
pub proof fn law_tree_is_least<L: Fn(u32, u32) -> Vec<i32>>(
    list: L,
    root: i32,
    group: Vec<i32>,
    children: Map<i32, Vec<i32>>,
    pids: Seq<i32>,
    closed: Set<i32>,
)
    requires
        is_walk(list, root, group, children, pids),
        closed.contains(root),
        forall|pid: i32| #[trigger] group@.contains(pid) ==> closed.contains(pid),
        forall|parent: i32, child: i32|
            #![trigger children[parent]@.contains(child)]
            closed.contains(parent) && children.dom().contains(parent)
                && children[parent]@.contains(child) ==> closed.contains(child),
    ensures
        pids.to_set().subset_of(closed),
{
    assert forall|pid: i32| pids.to_set().contains(pid) implies closed.contains(pid) by {
        assert(pids.contains(pid));
        let path = choose|path: Seq<i32>| #[trigger]
            is_descent(root, group@, children, path) && path.last() == pid;
        lemma_closed_holds_descent(root, group@, children, closed, path, path.len() - 1);
    }
}

/// Where every answer names real processes only, so does the tree: a kill of
/// its members never addresses the caller's own group or every process.
pub proof fn law_tree_holds_processes_only<L: Fn(u32, u32) -> Vec<i32>>(
    list: L,
    root: i32,
    group: Vec<i32>,
    children: Map<i32, Vec<i32>>,
    pids: Seq<i32>,
)
    requires
        is_walk(list, root, group, children, pids),
        root > 0,
        forall|pid: i32| #[trigger] group@.contains(pid) ==> pid > 0,
        forall|parent: i32, child: i32|
            #![trigger children[parent]@.contains(child)]
            children.dom().contains(parent) && children[parent]@.contains(child) ==> child > 0,
    ensures
        forall|pid: i32| #[trigger] pids.contains(pid) ==> pid > 0,
{
    assert forall|pid: i32| #[trigger] pids.contains(pid) implies pid > 0 by {
        let path = choose|path: Seq<i32>| #[trigger]
            is_descent(root, group@, children, path) && path.last() == pid;
        if path.len() > 1 {
            let parent = path[path.len() - 2];
            assert(children[parent]@.contains(pid));
        }
    }
}

/// What is found on a process table that answers each query by a function of
/// the query: the root, the answer to the group query of the root, the answer
/// to the child query of every process found, nothing that these do not force,
/// and nothing twice.
pub proof fn law_process_tree<L: Fn(u32, u32) -> Vec<i32>>(
    list: L,
    answers: spec_fn(u32, u32) -> Seq<i32>,
    root: i32,
    pids: Seq<i32>,
)
    requires
        is_process_tree(list, root, pids),
        forall|kind: u32, arg: u32, answer: Vec<i32>| #[trigger]
            call_ensures(list, (kind, arg), answer) ==> answer@ == answers(kind, arg),
    ensures
        pids.no_duplicates(),
        pids.contains(root),
        forall|pid: i32| #[trigger]
            answers(2u32, root as u32).contains(pid) ==> pids.contains(pid),
        forall|parent: i32, child: i32|
            pids.contains(parent) && #[trigger] answers(6u32, parent as u32).contains(child)
                ==> pids.contains(child),
        forall|closed: Set<i32>|
            {
                &&& closed.contains(root)
                &&& forall|pid: i32| #[trigger]
                    answers(2u32, root as u32).contains(pid) ==> closed.contains(pid)
                &&& forall|parent: i32, child: i32|
                    closed.contains(parent) && #[trigger] answers(6u32, parent as u32).contains(
                        child,
                    ) ==> closed.contains(child)
            } ==> #[trigger] pids.to_set().subset_of(closed),
{
    let (group, children) = choose|group: Vec<i32>, children: Map<i32, Vec<i32>>| #[trigger]
        is_walk(list, root, group, children, pids);
    lemma_walk_is_least_closed(list, root, group, children, pids);
    assert(group@ == answers(2u32, root as u32));
    assert forall|parent: i32, child: i32|
        pids.contains(parent) && #[trigger] answers(6u32, parent as u32).contains(
            child,
        ) implies pids.contains(child) by {
        assert(call_ensures(list, (6u32, parent as u32), children[parent]));
        assert(children[parent]@.contains(child));
    }
    assert forall|closed: Set<i32>|
        {
            &&& closed.contains(root)
            &&& forall|pid: i32| #[trigger]
                answers(2u32, root as u32).contains(pid) ==> closed.contains(pid)
            &&& forall|parent: i32, child: i32|
                closed.contains(parent) && #[trigger] answers(6u32, parent as u32).contains(
                    child,
                ) ==> closed.contains(child)
        } implies #[trigger] pids.to_set().subset_of(closed) by {
        assert forall|parent: i32, child: i32|
            #![trigger children[parent]@.contains(child)]
            closed.contains(parent) && pids.contains(parent) && children[parent]@.contains(
                child,
            ) implies closed.contains(child) by {
            assert(call_ensures(list, (6u32, parent as u32), children[parent]));
            assert(answers(6u32, parent as u32).contains(child));
        }
        assert forall|pid: i32| pids.to_set().contains(pid) implies closed.contains(pid) by {
            assert(pids.contains(pid));
        }
    }
}

/// A single reading counts in full, one that failed counts nothing, and the
/// readings of two groups of processes together are the sum of both.
pub proof fn law_footprints_add_up(left: Seq<Option<u64>>, right: Seq<Option<u64>>, bytes: u64)
    ensures
        footprint_sum(Seq::<Option<u64>>::empty()) == 0,
        footprint_sum(seq![Some(bytes)]) == bytes,
        footprint_sum(seq![None::<u64>]) == 0,
        footprint_sum(left + right) == footprint_sum(left) + footprint_sum(right),
    decreases right.len(),
{
    assert(seq![Some(bytes)].drop_last() == Seq::<Option<u64>>::empty());
    assert(seq![None::<u64>].drop_last() == Seq::<Option<u64>>::empty());
    reveal_with_fuel(footprint_sum, 2);
    if right.len() == 0 {
        assert(left + right == left);
    } else {
        law_footprints_add_up(left, right.drop_last(), bytes);
        assert((left + right).drop_last() == left + right.drop_last());
    }
}

proof fn lemma_sum_without(pids: Seq<i32>, memory: spec_fn(i32) -> Option<u64>, k: int)
    requires
        0 <= k < pids.len(),
    ensures
        footprint_sum(pids.map_values(memory)) == footprint_sum(
            pids.remove(k).map_values(memory),
        ) + footprint_sum(seq![memory(pids[k])]),
{
    let head = pids.take(k).map_values(memory);
    let tail = pids.skip(k + 1).map_values(memory);
    let middle = seq![memory(pids[k])];
    assert(pids.map_values(memory) == head + middle + tail);
    assert(pids.remove(k).map_values(memory) == head + tail);
    law_footprints_add_up(head + middle, tail, 0);
    law_footprints_add_up(head, middle, 0);
    law_footprints_add_up(head, tail, 0);
}

proof fn lemma_sum_of_set(pids: Seq<i32>, others: Seq<i32>, memory: spec_fn(i32) -> Option<u64>)
    requires
        pids.no_duplicates(),
        others.no_duplicates(),
        forall|pid: i32| #[trigger] pids.contains(pid) <==> others.contains(pid),
    ensures
        footprint_sum(pids.map_values(memory)) == footprint_sum(others.map_values(memory)),
    decreases pids.len(),
{
    if pids.len() == 0 {
        if others.len() > 0 {
            assert(others.contains(others[0]));
            assert(pids.contains(others[0]));
        }
        assert(pids.map_values(memory) == others.map_values(memory));
    } else {
        let last = pids.len() - 1;
        let pid = pids[last];
        assert(pids.contains(pid));
        let k = others.index_of(pid);
        let fewer = pids.remove(last);
        let rest = others.remove(k);
        assert forall|p: i32| #[trigger] fewer.contains(p) <==> rest.contains(p) by {
            if fewer.contains(p) {
                let i = fewer.index_of(p);
                assert(pids[i] == p);
                assert(pids.contains(p));
                let j = others.index_of(p);
                assert(j != k);
                assert(rest[if j < k { j } else { j - 1 }] == p);
            }
            if rest.contains(p) {
                let i = rest.index_of(p);
                let j = if i < k { i } else { i + 1 };
                assert(others[j] == p);
                assert(others.contains(p));
                assert(pids.contains(p));
                let m = pids.index_of(p);
                assert(m != last);
                assert(fewer[m] == p);
            }
        }
        lemma_sum_of_set(fewer, rest, memory);
        lemma_sum_without(pids, memory, last);
        lemma_sum_without(others, memory, k);
    }
}

/// The memory of a sandbox on a process table that answers by a function of the
/// query, with readings that are a function of the process: the sum over
/// exactly the processes that the root, its group and the children force, each
/// counted once, where that sum fits into 64 bits.
pub proof fn law_tree_footprint<L: Fn(u32, u32) -> Vec<i32>, R: Fn(i32) -> Option<u64>>(
    list: L,
    read: R,
    answers: spec_fn(u32, u32) -> Seq<i32>,
    memory: spec_fn(i32) -> Option<u64>,
    root: i32,
    pids: Seq<i32>,
    total: Option<u64>,
)
    requires
        is_tree_footprint(list, read, root, total),
        forall|kind: u32, arg: u32, answer: Vec<i32>| #[trigger]
            call_ensures(list, (kind, arg), answer) ==> answer@ == answers(kind, arg),
        forall|pid: i32, reading: Option<u64>| #[trigger]
            call_ensures(read, (pid,), reading) ==> reading == memory(pid),
        pids.no_duplicates(),
        pids.contains(root),
        forall|pid: i32| #[trigger]
            answers(2u32, root as u32).contains(pid) ==> pids.contains(pid),
        forall|parent: i32, child: i32|
            pids.contains(parent) && #[trigger] answers(6u32, parent as u32).contains(child)
                ==> pids.contains(child),
        forall|closed: Set<i32>|
            {
                &&& closed.contains(root)
                &&& forall|pid: i32| #[trigger]
                    answers(2u32, root as u32).contains(pid) ==> closed.contains(pid)
                &&& forall|parent: i32, child: i32|
                    closed.contains(parent) && #[trigger] answers(6u32, parent as u32).contains(
                        child,
                    ) ==> closed.contains(child)
            } ==> #[trigger] pids.to_set().subset_of(closed),
    ensures
        footprint_sum(pids.map_values(memory)) <= 0xffff_ffff_ffff_ffff ==> (
        total matches Some(bytes) && bytes == footprint_sum(pids.map_values(memory))),
        footprint_sum(pids.map_values(memory)) > 0xffff_ffff_ffff_ffff ==> total is None,
{
    let (found, readings) = choose|found: Seq<i32>, readings: Seq<Option<u64>>|
        {
            &&& #[trigger] is_process_tree(list, root, found)
            &&& #[trigger] are_readings(read, found, readings)
            &&& total == checked_total(readings)
        };
    law_process_tree(list, answers, root, found);
    assert(found.to_set().subset_of(pids.to_set()));
    assert(pids.to_set().subset_of(found.to_set()));
    assert forall|pid: i32| #[trigger] pids.contains(pid) <==> found.contains(pid) by {
        assert(pids.to_set().contains(pid) <==> found.to_set().contains(pid));
    }
    lemma_sum_of_set(pids, found, memory);
    assert(readings == found.map_values(memory));
}

/// A listing is read slot by slot: each slot that the kernel wrote in full and
/// that holds a process adds that process at the end, any other slot nothing.
pub proof fn law_listing_slot_by_slot(buffer: Seq<i32>, slot: i32, bytes: int)
    ensures
        written_pids(Seq::empty(), bytes) == Seq::<i32>::empty(),
        slot > 0 && 4 * (buffer.len() + 1) <= bytes ==> written_pids(buffer.push(slot), bytes)
            == written_pids(buffer, bytes).push(slot),
        slot <= 0 || 4 * (buffer.len() + 1) > bytes ==> written_pids(buffer.push(slot), bytes)
            == written_pids(buffer, bytes),
{
    let live = |pid: i32| pid > 0;
    buffer.lemma_filter_push(slot, live);
    assert(buffer.push(slot).take(buffer.len() as int) == buffer);
    assert(buffer.push(slot).take((buffer.len() + 1) as int) == buffer.push(slot));
    assert(buffer.take(buffer.len() as int) == buffer);
    assert(Seq::<i32>::empty().filter(live) =~= Seq::empty());
    assert(Seq::<i32>::empty().take(0) =~= Seq::empty());
    if 0 < bytes && bytes / 4 <= buffer.len() {
        assert(buffer.push(slot).take(bytes / 4) == buffer.take(bytes / 4));
    }
}

/// A process is listed exactly where its id is positive and stands in a slot
/// that the kernel wrote in full.
pub proof fn law_listed_processes(buffer: Seq<i32>, bytes: int, pid: i32)
    ensures
        written_pids(buffer, bytes).contains(pid) <==> pid > 0 && exists|i: int|
            0 <= i < buffer.len() && 4 * (i + 1) <= bytes && #[trigger] buffer[i] == pid,
    decreases buffer.len(),
{
    if buffer.len() == 0 {
        law_listing_slot_by_slot(buffer, 0, bytes);
        assert(buffer == Seq::<i32>::empty());
    } else {
        let rest = buffer.drop_last();
        let slot = buffer.last();
        assert(buffer == rest.push(slot));
        law_listing_slot_by_slot(rest, slot, bytes);
        law_listed_processes(rest, bytes, pid);
        let before = written_pids(rest, bytes);
        if before.contains(pid) {
            let i = choose|i: int|
                0 <= i < rest.len() && 4 * (i + 1) <= bytes && #[trigger] rest[i] == pid;
            assert(buffer[i] == pid);
            let k = before.index_of(pid);
            assert(before.push(slot)[k] == pid);
        }
        assert(before.push(slot)[before.len() as int] == slot);
        if exists|i: int|
            0 <= i < buffer.len() && 4 * (i + 1) <= bytes && #[trigger] buffer[i] == pid {
            let i = choose|i: int|
                0 <= i < buffer.len() && 4 * (i + 1) <= bytes && #[trigger] buffer[i] == pid;
            if i < rest.len() {
                assert(rest[i] == pid);
            }
        }
        if written_pids(buffer, bytes).contains(pid) && !before.contains(pid) {
            assert(pid == slot);
            assert(buffer[buffer.len() - 1] == pid);
        }
    }
}

} // verus!
