//! The commit window: commits newest first, the lane each one is drawn in, and the
//! descendants of a commit.
use vstd::prelude::*;

verus! {

/// One commit of the window.
pub struct CommitInfo {
    pub hash: String,
    pub parents: Vec<String>,
    pub author: String,
    pub date: String,
    pub subject: String,
}

/// What the layout and the filters read of a commit.
pub struct CommitView {
    pub hash: Seq<char>,
    pub parents: Seq<Seq<char>>,
    pub author: Seq<char>,
    pub date: Seq<char>,
    pub subject: Seq<char>,
}

impl View for CommitInfo {
    type V = CommitView;

    open spec fn view(&self) -> CommitView {
        CommitView {
            hash: self.hash@,
            parents: self.parents@.map_values(|p: String| p@),
            author: self.author@,
            date: self.date@,
            subject: self.subject@,
        }
    }
}

pub open spec fn commits_view(c: Seq<CommitInfo>) -> Seq<CommitView> {
    c.map_values(|x: CommitInfo| x@)
}

// ── Descendants ─────────────────────────────────────────────────────────────

/// `t` holds every commit one of whose parents it holds.
pub open spec fn closed_under_children(commits: Seq<CommitView>, t: Set<Seq<char>>) -> bool {
    forall|k: int, q: int|
        0 <= k < commits.len() && 0 <= q < commits[k].parents.len() && #[trigger] t.contains(
            commits[k].parents[q],
        ) ==> t.contains(commits[k].hash)
}

/// `r` is the set of `root` and its descendants in the window: the least set that
/// holds `root` and every commit one of whose parents it holds.
pub open spec fn is_descendant_set(commits: Seq<CommitView>, root: Seq<char>, r: Set<Seq<char>>) -> bool {
    &&& r.contains(root)
    &&& closed_under_children(commits, r)
    &&& forall|t: Set<Seq<char>>|
        t.contains(root) && closed_under_children(commits, t) ==> #[trigger] r.subset_of(t)
}

pub open spec fn count_false(f: Seq<bool>) -> nat
    decreases f.len(),
{
    if f.len() == 0 {
        0
    } else {
        (if f.last() { 0nat } else { 1nat }) + count_false(f.drop_last())
    }
}

proof fn lemma_count_false_update(f: Seq<bool>, j: int)
    requires
        0 <= j < f.len(),
        !f[j],
    ensures
        count_false(f.update(j, true)) + 1 == count_false(f),
    decreases f.len(),
{
    if j == f.len() - 1 {
        assert(f.update(j, true).drop_last() =~= f.drop_last());
    } else {
        assert(f.update(j, true).drop_last() =~= f.drop_last().update(j, true));
        lemma_count_false_update(f.drop_last(), j);
    }
}

/// The hashes that a set of flags over the window selects, and `root`.
pub open spec fn flagged_set(commits: Seq<CommitView>, root: Seq<char>, flags: Seq<bool>) -> Set<Seq<char>> {
    Set::new(|h: Seq<char>| h == root || exists|j: int| 0 <= j < flags.len() && flags[j] && commits[j].hash == h)
}

/// Marks every unmarked commit one of whose parents is `cur`, and queues it.
fn mark_children(
    commits: &Vec<CommitInfo>,
    cur: &String,
    flags: &mut Vec<bool>,
    order: &mut Vec<usize>,
)
    requires
        old(flags)@.len() == commits@.len(),
        forall|i: int| 0 <= i < old(order)@.len() ==> old(order)@[i] < commits@.len(),
        forall|j: int|
            0 <= j < commits@.len() ==> (old(flags)@[j] <==> exists|i: int|
                0 <= i < old(order)@.len() && old(order)@[i] == j),
    ensures
        final(flags)@.len() == commits@.len(),
        forall|i: int| 0 <= i < final(order)@.len() ==> final(order)@[i] < commits@.len(),
        forall|j: int|
            0 <= j < commits@.len() ==> (final(flags)@[j] <==> exists|i: int|
                0 <= i < final(order)@.len() && final(order)@[i] == j),
        final(order)@.len() >= old(order)@.len(),
        final(order)@.subrange(0, old(order)@.len() as int) == old(order)@,
        count_false(final(flags)@) + (final(order)@.len() - old(order)@.len()) == count_false(old(flags)@),
        forall|j: int| 0 <= j < commits@.len() && old(flags)@[j] ==> final(flags)@[j],
        forall|j: int|
            0 <= j < commits@.len() && final(flags)@[j] && !old(flags)@[j] ==> exists|q: int|
                0 <= q < commits_view(commits@)[j].parents.len()
                    && commits_view(commits@)[j].parents[q] == cur@,
        forall|k: int, q: int|
            0 <= k < commits@.len() && 0 <= q < commits_view(commits@)[k].parents.len()
                && commits_view(commits@)[k].parents[q] == cur@ ==> final(flags)@[k],
{
    let n = commits.len();
    let ghost cv = commits_view(commits@);
    let ghost flags0 = flags@;
    let ghost order0 = order@;
    let mut k: usize = 0;
    while k < n
        invariant
            n == commits@.len(),
            cv == commits_view(commits@),
            flags0 == old(flags)@,
            order0 == old(order)@,
            k <= n,
            flags@.len() == n,
            forall|i: int| 0 <= i < order@.len() ==> order@[i] < n,
            forall|j: int|
                0 <= j < n ==> (flags@[j] <==> exists|i: int| 0 <= i < order@.len() && order@[i] == j),
            order@.len() >= order0.len(),
            order@.subrange(0, order0.len() as int) == order0,
            count_false(flags@) + (order@.len() - order0.len()) == count_false(flags0),
            forall|j: int| 0 <= j < n && flags0[j] ==> flags@[j],
            forall|j: int|
                0 <= j < n && flags@[j] && !flags0[j] ==> exists|q: int|
                    0 <= q < cv[j].parents.len() && cv[j].parents[q] == cur@,
            forall|kk: int, q: int|
                0 <= kk < k && 0 <= q < cv[kk].parents.len() && cv[kk].parents[q] == cur@
                    ==> flags@[kk],
        decreases n - k,
    {
        let parents = &commits[k].parents;
        let ghost pv = cv[k as int].parents;
        assert(pv == commits@[k as int].parents@.map_values(|p: String| p@));
        let mut q: usize = 0;
        let mut child = false;
        while q < parents.len()
            invariant
                parents@.len() == pv.len(),
                pv == parents@.map_values(|p: String| p@),
                q <= parents@.len(),
                !child ==> forall|qq: int| 0 <= qq < q ==> pv[qq] != cur@,
                child ==> exists|qq: int| 0 <= qq < pv.len() && pv[qq] == cur@,
            decreases parents@.len() - q,
        {
            if parents[q] == *cur {
                child = true;
                assert(pv[q as int] == cur@);
            }
            q = q + 1;
        }
        if child && !flags[k] {
            let ghost fl = flags@;
            let ghost od = order@;
            proof {
                lemma_count_false_update(fl, k as int);
            }
            flags.set(k, true);
            order.push(k);
            assert(order@.subrange(0, order0.len() as int) =~= od.subrange(0, order0.len() as int));
            assert forall|j: int| 0 <= j < n implies (flags@[j] <==> exists|i: int|
                0 <= i < order@.len() && order@[i] == j) by {
                if j == k {
                    assert(order@[od.len() as int] == j);
                } else if flags@[j] {
                    let i = choose|i: int| 0 <= i < od.len() && od[i] == j;
                    assert(order@[i] == j);
                } else {
                    assert forall|i: int| 0 <= i < order@.len() implies order@[i] != j by {
                        if i < od.len() {
                            assert(order@[i] == od[i]);
                        }
                    }
                }
            }
        }
        k = k + 1;
    }
}

/// The root and every commit of the window that descends from it; nothing
/// where no root is given.
pub fn build_desc_set(commits: &Vec<CommitInfo>, root: &String) -> (r: Vec<String>)
    ensures
        root@.len() == 0 ==> r@.len() == 0,
        root@.len() > 0 ==> is_descendant_set(commits_view(commits@), root@, r@.map_values(|h: String| h@).to_set()),
{
    if root.as_str().unicode_len() == 0 {
        return Vec::new();
    }
    let n = commits.len();
    let ghost cv = commits_view(commits@);
    let mut flags: Vec<bool> = Vec::new();
    while flags.len() < n
        invariant
            flags@.len() <= n,
            forall|j: int| 0 <= j < flags@.len() ==> !flags@[j],
        decreases n - flags@.len(),
    {
        flags.push(false);
    }
    let mut order: Vec<usize> = Vec::new();
    let ghost flags_init = flags@;
    mark_children(commits, root, &mut flags, &mut order);
    let mut head: usize = 0;
    proof {
        lemma_count_false_le(flags@);
        assert forall|t: Set<Seq<char>>|
            t.contains(root@) && closed_under_children(cv, t) implies forall|j: int|
                0 <= j < n && flags@[j] ==> #[trigger] t.contains(cv[j].hash) by {
            assert forall|j: int| 0 <= j < n && flags@[j] implies #[trigger] t.contains(cv[j].hash) by {
                assert(!flags_init[j]);
                let q = choose|q: int| 0 <= q < cv[j].parents.len() && cv[j].parents[q] == root@;
                assert(t.contains(cv[j].parents[q]));
            }
        }
    }
    while head < order.len()
        invariant
            n == commits@.len(),
            cv == commits_view(commits@),
            flags@.len() == n,
            head <= order@.len(),
            forall|i: int| 0 <= i < order@.len() ==> order@[i] < n,
            forall|j: int|
                0 <= j < n ==> (flags@[j] <==> exists|i: int| 0 <= i < order@.len() && order@[i] == j),
            count_false(flags@) <= n,
            // every marked commit lies in any closed set that holds the root
            forall|t: Set<Seq<char>>|
                t.contains(root@) && closed_under_children(cv, t) ==> forall|j: int|
                    0 <= j < n && flags@[j] ==> #[trigger] t.contains(cv[j].hash),
            // the root and the processed commits have all their children marked
            forall|k: int, q: int|
                0 <= k < n && 0 <= q < cv[k].parents.len() && cv[k].parents[q] == root@
                    ==> flags@[k],
            forall|i: int, k: int, q: int|
                0 <= i < head && 0 <= k < n && 0 <= q < cv[k].parents.len() && cv[k].parents[q]
                    == cv[order@[i] as int].hash ==> flags@[k],
        decreases 2 * count_false(flags@) + order@.len() - head,
    {
        let ghost flags_before = flags@;
        let ghost order_before = order@;
        let cur = &commits[order[head]].hash;
        assert(cur@ == cv[order@[head as int] as int].hash);
        mark_children(commits, cur, &mut flags, &mut order);
        proof {
            lemma_count_false_le(flags@);
            assert forall|i: int| 0 <= i < order_before.len() implies order@[i] == order_before[i] by {
                assert(order@.subrange(0, order_before.len() as int)[i] == order_before[i]);
            }
            assert forall|t: Set<Seq<char>>|
                t.contains(root@) && closed_under_children(cv, t) implies forall|j: int|
                    0 <= j < n && flags@[j] ==> #[trigger] t.contains(cv[j].hash) by {
                assert forall|j: int| 0 <= j < n && flags@[j] implies #[trigger] t.contains(cv[j].hash) by {
                    if !flags_before[j] {
                        let q = choose|q: int| 0 <= q < cv[j].parents.len() && cv[j].parents[q] == cur@;
                        assert(t.contains(cv[order_before[head as int] as int].hash));
                        assert(t.contains(cv[j].parents[q]));
                    }
                }
            }
        }
        proof {
            assert forall|i: int, k: int, q: int|
                0 <= i < head + 1 && 0 <= k < n && 0 <= q < cv[k].parents.len() && cv[k].parents[q]
                    == cv[order@[i] as int].hash implies flags@[k] by {
                if i < head {
                    assert(order@[i] == order_before[i]);
                    assert(flags_before[k]);
                } else {
                    assert(order@[i] == order_before[i]);
                }
            }
        }
        head = head + 1;
    }
    let mut out: Vec<String> = Vec::new();
    out.push(root.clone());
    let mut j: usize = 0;
    while j < n
        invariant
            n == commits@.len(),
            cv == commits_view(commits@),
            flags@.len() == n,
            j <= n,
            out@.len() >= 1,
            out@[0]@ == root@,
            forall|i: int| 0 <= i < out@.len() ==> (#[trigger] out@[i])@ == root@ || exists|jj: int|
                0 <= jj < n && flags@[jj] && cv[jj].hash == out@[i]@,
            forall|jj: int| 0 <= jj < j && flags@[jj] ==> exists|i: int|
                0 <= i < out@.len() && out@[i]@ == cv[jj].hash,
        decreases n - j,
    {
        if flags[j] {
            let ghost before = out@;
            out.push(commits[j].hash.clone());
            assert(out@[before.len() as int]@ == cv[j as int].hash);
            assert forall|jj: int| 0 <= jj < j + 1 && flags@[jj] implies exists|i: int|
                0 <= i < out@.len() && out@[i]@ == cv[jj].hash by {
                if jj < j {
                    let i = choose|i: int| 0 <= i < before.len() && before[i]@ == cv[jj].hash;
                    assert(out@[i] == before[i]);
                }
            }
        }
        j = j + 1;
    }
    let ghost r = out@.map_values(|h: String| h@).to_set();
    proof {
        let fs = flagged_set(cv, root@, flags@);
        let ov = out@.map_values(|h: String| h@);
        assert forall|h: Seq<char>| r.contains(h) <==> fs.contains(h) by {
            if r.contains(h) {
                let i = choose|i: int| 0 <= i < ov.len() && #[trigger] ov[i] == h;
                assert(out@[i]@ == h);
            }
            if fs.contains(h) {
                if h == root@ {
                    assert(ov[0] == h);
                } else {
                    let jj = choose|jj: int| 0 <= jj < flags@.len() && flags@[jj] && cv[jj].hash == h;
                    let i = choose|i: int| 0 <= i < out@.len() && out@[i]@ == cv[jj].hash;
                    assert(ov[i] == h);
                }
            }
        }
        assert(r =~= fs);
        assert(closed_under_children(cv, fs)) by {
            assert forall|k: int, q: int|
                0 <= k < cv.len() && 0 <= q < cv[k].parents.len() && #[trigger] fs.contains(
                    cv[k].parents[q],
                ) implies fs.contains(cv[k].hash) by {
                let p = cv[k].parents[q];
                if p == root@ {
                    assert(flags@[k]);
                } else {
                    let jj = choose|jj: int| 0 <= jj < flags@.len() && flags@[jj] && cv[jj].hash == p;
                    let i = choose|i: int| 0 <= i < order@.len() && order@[i] == jj;
                    assert(flags@[k]);
                }
            }
        }
        assert forall|t: Set<Seq<char>>|
            t.contains(root@) && closed_under_children(cv, t) implies #[trigger] fs.subset_of(t) by {
            assert forall|h: Seq<char>| fs.contains(h) implies t.contains(h) by {
                if h != root@ {
                    let jj = choose|jj: int| 0 <= jj < flags@.len() && flags@[jj] && cv[jj].hash == h;
                    assert(t.contains(cv[jj].hash));
                }
            }
        }
    }
    out
}

proof fn lemma_count_false_le(f: Seq<bool>)
    ensures
        count_false(f) <= f.len(),
    decreases f.len(),
{
    if f.len() > 0 {
        lemma_count_false_le(f.drop_last());
    }
}

// ── Lanes ───────────────────────────────────────────────────────────────────

/// The lanes of the graph: the lane of each commit, which commit each lane is
/// reserved for after the last commit, the highest lane used and the lane count.
pub struct LaneLayout {
    pub lanes: Vec<usize>,
    pub occupied: Vec<Option<String>>,
    pub max_lane: usize,
    pub nlanes: usize,
}

pub struct LaneState {
    pub lanes: Seq<int>,
    pub occ: Seq<Option<Seq<char>>>,
    pub max_lane: int,
}

pub open spec fn occ_view(o: Seq<Option<String>>) -> Seq<Option<Seq<char>>> {
    o.map_values(|x: Option<String>| match x {
        Some(s) => Some(s@),
        None => None,
    })
}

/// The lowest free lane at or after `l`, or a new lane past the end.
pub open spec fn first_free(occ: Seq<Option<Seq<char>>>, l: int) -> int
    decreases occ.len() - l,
{
    if l < 0 || l >= occ.len() {
        occ.len() as int
    } else if occ[l] is None {
        l
    } else {
        first_free(occ, l + 1)
    }
}

/// A commit after the `i`-th names `h` as a parent.
pub open spec fn needed_later(cv: Seq<CommitView>, i: int, h: Seq<char>) -> bool {
    exists|j: int, q: int|
        i < j < cv.len() && 0 <= q < cv[j].parents.len() && #[trigger] cv[j].parents[q] == h
}

/// Placing commit `i`: it takes the lowest free lane; then every lane reserved
/// for a commit other than `i` that no later commit names as a parent is freed.
pub open spec fn lane_step(cv: Seq<CommitView>, st: LaneState, i: int) -> LaneState {
    let h = cv[i].hash;
    let ln = first_free(st.occ, 0);
    let occ1 = if ln < st.occ.len() { st.occ.update(ln, Some(h)) } else { st.occ.push(Some(h)) };
    LaneState {
        lanes: st.lanes.push(ln),
        occ: occ1.map_values(|o: Option<Seq<char>>| match o {
            Some(oh) => if oh != h && !needed_later(cv, i, oh) { None } else { Some(oh) },
            None => None,
        }),
        max_lane: if ln > st.max_lane { ln } else { st.max_lane },
    }
}

/// The lanes after placing the first `k` commits.
pub open spec fn lane_run(cv: Seq<CommitView>, k: int) -> LaneState
    decreases k,
{
    if k <= 0 {
        LaneState { lanes: seq![], occ: seq![], max_lane: 0 }
    } else {
        lane_step(cv, lane_run(cv, k - 1), k - 1)
    }
}

proof fn lemma_first_free(occ: Seq<Option<Seq<char>>>, l: int)
    requires
        0 <= l <= occ.len(),
    ensures
        l <= first_free(occ, l) <= occ.len(),
        first_free(occ, l) < occ.len() ==> occ[first_free(occ, l)] is None,
        forall|m: int| l <= m < first_free(occ, l) ==> occ[m] is Some,
    decreases occ.len() - l,
{
    if l < occ.len() && occ[l] is Some {
        lemma_first_free(occ, l + 1);
    }
}

proof fn lemma_lane_run_bounds(cv: Seq<CommitView>, k: int)
    requires
        0 <= k <= cv.len(),
    ensures
        lane_run(cv, k).lanes.len() == k,
        lane_run(cv, k).occ.len() <= k,
        0 <= lane_run(cv, k).max_lane,
        k > 0 ==> lane_run(cv, k).max_lane < k,
        forall|i: int| 0 <= i < k ==> 0 <= #[trigger] lane_run(cv, k).lanes[i] <= lane_run(cv, k).max_lane,
        forall|i: int| 0 <= i < k ==> lane_run(cv, k).lanes[i] < k,
    decreases k,
{
    if k > 0 {
        lemma_lane_run_bounds(cv, k - 1);
        let st = lane_run(cv, k - 1);
        lemma_first_free(st.occ, 0);
        let r = lane_run(cv, k);
        assert forall|i: int| 0 <= i < k implies 0 <= #[trigger] r.lanes[i] <= r.max_lane by {
            if i < k - 1 {
                assert(r.lanes[i] == st.lanes[i]);
            }
        }
        assert forall|i: int| 0 <= i < k implies r.lanes[i] < k by {
            if i < k - 1 {
                assert(r.lanes[i] == st.lanes[i]);
            }
        }
    }
}

pub fn needed_after(commits: &Vec<CommitInfo>, i: usize, oh: &String) -> (r: bool)
    requires
        i < commits@.len(),
    ensures
        r == needed_later(commits_view(commits@), i as int, oh@),
{
    let ghost cv = commits_view(commits@);
    let n = commits.len();
    let mut j = i + 1;
    while j < n
        invariant
            n == commits@.len(),
            cv == commits_view(commits@),
            i < j <= n,
            forall|jj: int, q: int|
                i < jj < j && 0 <= q < cv[jj].parents.len() ==> cv[jj].parents[q] != oh@,
        decreases n - j,
    {
        let parents = &commits[j].parents;
        let ghost pv = cv[j as int].parents;
        assert(pv == commits@[j as int].parents@.map_values(|p: String| p@));
        let mut q: usize = 0;
        while q < parents.len()
            invariant
                parents@.len() == pv.len(),
                pv == parents@.map_values(|p: String| p@),
                pv == cv[j as int].parents,
                cv == commits_view(commits@),
                i < j < n,
                n == cv.len(),
                q <= parents@.len(),
                forall|qq: int| 0 <= qq < q ==> pv[qq] != oh@,
            decreases parents@.len() - q,
        {
            if parents[q] == *oh {
                assert(cv[j as int].parents[q as int] == oh@);
                assert(needed_later(cv, i as int, oh@));
                return true;
            }
            q = q + 1;
        }
        j = j + 1;
    }
    false
}

/// Assigns each commit of the window a lane of the graph.
pub fn lane_layout(commits: &Vec<CommitInfo>) -> (r: LaneLayout)
    ensures
        ({
            let st = lane_run(commits_view(commits@), commits@.len() as int);
            &&& r.lanes@.len() == commits@.len()
            &&& forall|i: int| 0 <= i < commits@.len() ==> r.lanes@[i] == st.lanes[i]
            &&& occ_view(r.occupied@) == st.occ
            &&& r.max_lane == st.max_lane
            &&& r.nlanes == st.max_lane + 1
        }),
{
    let ghost cv = commits_view(commits@);
    let n = commits.len();
    let mut lanes: Vec<usize> = Vec::new();
    let mut occupied: Vec<Option<String>> = Vec::new();
    let mut max_lane: usize = 0;
    let mut i: usize = 0;
    while i < n
        invariant
            n == commits@.len(),
            cv == commits_view(commits@),
            i <= n,
            ({
                let st = lane_run(cv, i as int);
                &&& lanes@.len() == i
                &&& forall|k: int| 0 <= k < i ==> lanes@[k] == st.lanes[k]
                &&& occ_view(occupied@) == st.occ
                &&& max_lane == st.max_lane
            }),
        decreases n - i,
    {
        proof {
            lemma_lane_run_bounds(cv, i as int);
        }
        let ghost st = lane_run(cv, i as int);
        let hash = &commits[i].hash;
        assert(hash@ == cv[i as int].hash);
        // lowest free lane
        let mut ln: usize = 0;
        while ln < occupied.len() && occupied[ln].is_some()
            invariant
                ln <= occupied@.len(),
                occ_view(occupied@) == st.occ,
                first_free(st.occ, ln as int) == first_free(st.occ, 0),
            decreases occupied@.len() - ln,
        {
            ln = ln + 1;
        }
        assert(ln == first_free(st.occ, 0)) by {
            if ln < occupied@.len() {
                assert(st.occ[ln as int] is None);
            }
        }
        let ghost occ1 = if (ln as int) < st.occ.len() {
            st.occ.update(ln as int, Some(cv[i as int].hash))
        } else {
            st.occ.push(Some(cv[i as int].hash))
        };
        if ln < occupied.len() {
            occupied.set(ln, Some(hash.clone()));
        } else {
            occupied.push(Some(hash.clone()));
        }
        assert(occ_view(occupied@) =~= occ1);
        lanes.push(ln);
        if ln > max_lane {
            max_lane = ln;
        }
        // free the lanes that no later commit needs
        let ghost target = lane_step(cv, st, i as int).occ;
        let mut l: usize = 0;
        while l < occupied.len()
            invariant
                n == commits@.len(),
                cv == commits_view(commits@),
                i < n,
                hash@ == cv[i as int].hash,
                l <= occupied@.len(),
                occupied@.len() == occ1.len(),
                target.len() == occ1.len(),
                target == occ1.map_values(|o: Option<Seq<char>>| match o {
                    Some(oh) => if oh != cv[i as int].hash && !needed_later(cv, i as int, oh) { None } else { Some(oh) },
                    None => None,
                }),
                forall|m: int| 0 <= m < l ==> occ_view(occupied@)[m] == target[m],
                forall|m: int| l <= m < occupied@.len() ==> occ_view(occupied@)[m] == occ1[m],
            decreases occupied@.len() - l,
        {
            let release = match &occupied[l] {
                Some(oh) => *oh != *hash && !needed_after(commits, i, oh),
                None => false,
            };
            if release {
                occupied.set(l, None);
            }
            assert(occ_view(occupied@)[l as int] == target[l as int]);
            l = l + 1;
        }
        assert(occ_view(occupied@) =~= target);
        i = i + 1;
        assert(lane_run(cv, i as int) == lane_step(cv, st, (i - 1) as int));
    }
    proof {
        lemma_lane_run_bounds(cv, n as int);
    }
    let nlanes = max_lane + 1;
    LaneLayout { lanes, occupied, max_lane, nlanes }
}

/// Every commit's lane is below the lane count, and the lane count is at most
/// the number of commits (one lane when there are none).
pub proof fn law_lanes_in_range(cv: Seq<CommitView>)
    ensures
        ({
            let st = lane_run(cv, cv.len() as int);
            &&& st.lanes.len() == cv.len()
            &&& forall|i: int| 0 <= i < cv.len() ==> 0 <= #[trigger] st.lanes[i] < st.max_lane + 1
            &&& st.max_lane + 1 <= (if cv.len() == 0 { 1 } else { cv.len() as int })
        }),
{
    lemma_lane_run_bounds(cv, cv.len() as int);
}

proof fn lemma_lane_run_shape(cv: Seq<CommitView>, k: int)
    requires
        0 <= k <= cv.len(),
    ensures
        forall|i: int| 0 <= i < k ==> #[trigger] lane_run(cv, k).lanes[i] <= i,
        k > 0 ==> lane_run(cv, k).occ.len() == lane_run(cv, k).max_lane + 1,
        k > 0 ==> exists|i: int| 0 <= i < k && #[trigger] lane_run(cv, k).lanes[i] == lane_run(cv, k).max_lane,
    decreases k,
{
    if k > 0 {
        lemma_lane_run_shape(cv, k - 1);
        lemma_lane_run_bounds(cv, k - 1);
        let st = lane_run(cv, k - 1);
        lemma_first_free(st.occ, 0);
        let r = lane_run(cv, k);
        let ln = first_free(st.occ, 0);
        assert(r.lanes[k - 1] == ln);
        assert forall|i: int| 0 <= i < k implies #[trigger] r.lanes[i] <= i by {
            if i < k - 1 {
                assert(r.lanes[i] == st.lanes[i]);
            }
        }
        if k - 1 > 0 && ln <= st.max_lane {
            let w = choose|i: int| 0 <= i < k - 1 && #[trigger] st.lanes[i] == st.max_lane;
            assert(r.lanes[w] == st.lanes[w]);
        }
    }
}

/// Each commit's lane is at most its position in the window, the highest lane
/// is one that a commit takes, and the lanes held after the last commit are as
/// many as the lane count.
pub proof fn law_lane_layout_shape(cv: Seq<CommitView>)
    ensures
        ({
            let st = lane_run(cv, cv.len() as int);
            &&& forall|i: int| 0 <= i < cv.len() ==> #[trigger] st.lanes[i] <= i
            &&& cv.len() > 0 ==> exists|i: int| 0 <= i < cv.len() && #[trigger] st.lanes[i] == st.max_lane
            &&& cv.len() > 0 ==> st.occ.len() == st.max_lane + 1
        }),
{
    lemma_lane_run_shape(cv, cv.len() as int);
}

/// A commit takes the lowest lane that was free when it was placed: every lane
/// below it was held by an earlier commit's reservation.
pub proof fn law_lane_is_lowest_free(cv: Seq<CommitView>, i: int)
    requires
        0 <= i < cv.len(),
    ensures
        ({
            let before = lane_run(cv, i).occ;
            let ln = lane_run(cv, cv.len() as int).lanes[i];
            &&& ln <= before.len()
            &&& (ln < before.len() ==> before[ln] is None)
            &&& forall|m: int| 0 <= m < ln ==> before[m] is Some
        }),
{
    lemma_lanes_stable(cv, i + 1, cv.len() as int, i);
    lemma_first_free(lane_run(cv, i).occ, 0);
    lemma_lane_run_bounds(cv, i);
}

proof fn lemma_lanes_stable(cv: Seq<CommitView>, k: int, m: int, i: int)
    requires
        0 <= i < k <= m <= cv.len(),
    ensures
        lane_run(cv, m).lanes[i] == lane_run(cv, k).lanes[i],
    decreases m - k,
{
    if m > k {
        lemma_lanes_stable(cv, k, m - 1, i);
        lemma_lane_run_bounds(cv, m - 1);
    }
}

} // verus!
