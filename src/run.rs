use vstd::prelude::*;
use crate::engine::{destination, verdict, Verdict};
use crate::laws::lemma_plan_links;
use crate::paths::{conflict_name, is_descendant};
use crate::pattern::excluded_by;
use crate::resolve::{apply_steps, describes, plan_steps, Entry, Slot, Step};

verus! {

/// A run's fixed inputs: each folder's root and exclusion patterns, and the
/// destination root.
pub struct RunSetup {
    pub roots: Seq<Seq<char>>,
    pub sources: Seq<Seq<Seq<char>>>,
    pub dest_root: Seq<char>,
}

/// What stands at `p` in `tree`.
pub open spec fn slot_of(tree: Map<Seq<char>, Entry>, p: Seq<char>) -> Slot {
    if !tree.contains_key(p) {
        Slot::Absent
    } else {
        match tree[p] {
            Entry::Link(t) => Slot::Symlink(t),
            Entry::File(_) => Slot::RegularFile,
        }
    }
}

impl RunSetup {
    /// Every walked file names a folder of the setup and lies below its root.
    pub open spec fn walk_fits(&self, walk: Seq<(int, Seq<char>)>) -> bool {
        &&& self.roots.len() == self.sources.len()
        &&& forall|k: int|
            0 <= k < walk.len() ==> 0 <= (#[trigger] walk[k]).0 < self.roots.len()
                && is_descendant(self.roots[walk[k].0], walk[k].1)
    }

    /// The destination of the walked file `w`.
    pub open spec fn dest_of(&self, w: (int, Seq<char>)) -> Seq<char> {
        destination(self.roots[w.0], self.dest_root, w.1)
    }

    /// The walked file `w` passes its folder's exclusion patterns.
    pub open spec fn admitted(&self, w: (int, Seq<char>)) -> bool {
        !excluded_by(self.sources[w.0], w.1)
    }

    /// The `k`-th walked file is admitted and no admitted file before it has
    /// the same destination.
    pub open spec fn first_at_dest(&self, walk: Seq<(int, Seq<char>)>, k: int) -> bool {
        &&& self.admitted(walk[k])
        &&& forall|j: int|
            0 <= j < k && self.admitted(#[trigger] walk[j]) ==> self.dest_of(walk[j])
                != self.dest_of(walk[k])
    }

    /// No admitted file's destination is the conflict path of another's.
    pub open spec fn no_conflict_clash(&self, walk: Seq<(int, Seq<char>)>) -> bool {
        forall|j: int, k: int|
            0 <= j < walk.len() && 0 <= k < walk.len() && self.admitted(walk[j]) && self.admitted(
                walk[k],
            ) ==> #[trigger] self.dest_of(walk[j]) != conflict_name(#[trigger] self.dest_of(walk[k]))
    }

    /// The destinations claimed and the entries, once the files of `walk`
    /// have been decided and their steps applied to `tree`, in walk order.
    pub open spec fn run(&self, walk: Seq<(int, Seq<char>)>, tree: Map<Seq<char>, Entry>) -> (
        Set<Seq<char>>,
        Map<Seq<char>, Entry>,
    )
        decreases walk.len(),
    {
        if walk.len() == 0 {
            (Set::empty(), tree)
        } else {
            let prev = self.run(walk.drop_last(), tree);
            let w = walk.last();
            match verdict(self.roots[w.0], self.sources[w.0], self.dest_root, prev.0, w.1) {
                Verdict::Mirror(d) => (
                    prev.0.insert(d),
                    apply_steps(prev.1, plan_steps(slot_of(prev.1, d), w.1, d)),
                ),
                _ => prev,
            }
        }
    }

    /// The destinations of the admitted files among the first `n` of `walk`.
    pub open spec fn claimed_upto(&self, walk: Seq<(int, Seq<char>)>, n: int) -> Set<Seq<char>> {
        Set::new(
            |d: Seq<char>|
                exists|k: int| 0 <= k < n && self.admitted(walk[k]) && #[trigger] self.dest_of(walk[k]) == d,
        )
    }
}

/// The steps for `dest` touch no path but `dest` and its conflict path.
pub proof fn lemma_plan_frame(
    tree: Map<Seq<char>, Entry>,
    slot: Slot,
    source: Seq<char>,
    dest: Seq<char>,
    p: Seq<char>,
)
    requires
        p != dest,
        p != conflict_name(dest),
    ensures
        apply_steps(tree, plan_steps(slot, source, dest)).contains_key(p) == tree.contains_key(p),
        tree.contains_key(p) ==> apply_steps(tree, plan_steps(slot, source, dest))[p] == tree[p],
{
    let s = plan_steps(slot, source, dest);
    reveal_with_fuel(apply_steps, 4);
    if s.len() == 2 {
        assert(s.drop_first().drop_first() =~= Seq::<Step>::empty());
    } else {
        assert(s.drop_first().drop_first().drop_first() =~= Seq::<Step>::empty());
    }
}

/// Over the first `n` files: the claimed set is that of the admitted
/// files' destinations, and each file first at its destination is linked
/// there.
proof fn lemma_run_prefix(
    setup: RunSetup,
    walk: Seq<(int, Seq<char>)>,
    tree: Map<Seq<char>, Entry>,
    n: int,
)
    requires
        setup.walk_fits(walk),
        setup.no_conflict_clash(walk),
        0 <= n <= walk.len(),
    ensures
        setup.run(walk.subrange(0, n), tree).0 == setup.claimed_upto(walk, n),
        forall|k: int|
            0 <= k < n && setup.first_at_dest(walk, k) ==> setup.run(
                walk.subrange(0, n),
                tree,
            ).1.contains_key(#[trigger] setup.dest_of(walk[k])) && setup.run(
                walk.subrange(0, n),
                tree,
            ).1[setup.dest_of(walk[k])] == Entry::Link(walk[k].1),
    decreases n,
{
    let pre = walk.subrange(0, n);
    if n == 0 {
        assert(setup.claimed_upto(walk, 0) =~= Set::<Seq<char>>::empty());
    } else {
        lemma_run_prefix(setup, walk, tree, n - 1);
        assert(pre.drop_last() =~= walk.subrange(0, n - 1));
        assert(pre.last() == walk[n - 1]);
        let prev = setup.run(walk.subrange(0, n - 1), tree);
        let w = walk[n - 1];
        let d = setup.dest_of(w);
        let c = setup.claimed_upto(walk, n);
        assert(0 <= w.0 < setup.roots.len() && is_descendant(setup.roots[w.0], w.1));
        if !setup.admitted(w) {
            assert(c =~= prev.0);
        } else if prev.0.contains(d) {
            assert(c =~= prev.0);
            assert(!setup.first_at_dest(walk, n - 1));
        } else {
            assert(c =~= prev.0.insert(d));
            let after = apply_steps(prev.1, plan_steps(slot_of(prev.1, d), w.1, d));
            assert(setup.run(pre, tree).1 == after);
            assert(describes(slot_of(prev.1, d), prev.1, d)) by {
                if prev.1.contains_key(d) {
                    match prev.1[d] {
                        Entry::Link(t) => {},
                        Entry::File(_) => {},
                    }
                }
            }
            lemma_plan_links(prev.1, slot_of(prev.1, d), w.1, d);
            assert forall|k: int|
                0 <= k < n - 1 && setup.first_at_dest(walk, k) implies after.contains_key(
                #[trigger] setup.dest_of(walk[k]),
            ) && after[setup.dest_of(walk[k])] == Entry::Link(walk[k].1) by {
                let dk = setup.dest_of(walk[k]);
                assert(prev.0.contains(dk));
                assert(dk != conflict_name(d));
                lemma_plan_frame(prev.1, slot_of(prev.1, d), w.1, d, dk);
            }
        }
    }
}

/// Run-wide coverage: after a run over `walk`, every admitted file that is
/// the first at its destination has a link to it there. It holds where no
/// admitted file's destination is the conflict path of another's (else a
/// later move aside may land on an earlier link).
pub proof fn law_run_coverage(setup: RunSetup, walk: Seq<(int, Seq<char>)>, tree: Map<Seq<char>, Entry>)
    requires
        setup.walk_fits(walk),
        setup.no_conflict_clash(walk),
    ensures
        forall|k: int|
            0 <= k < walk.len() && setup.first_at_dest(walk, k) ==> setup.run(walk, tree).1.contains_key(
                #[trigger] setup.dest_of(walk[k]),
            ) && setup.run(walk, tree).1[setup.dest_of(walk[k])] == Entry::Link(walk[k].1),
{
    lemma_run_prefix(setup, walk, tree, walk.len() as int);
    assert(walk.subrange(0, walk.len() as int) =~= walk);
}

/// An excluded file changes nothing: the run over `walk` followed by `w`,
/// whose path a pattern of its folder matches, claims and leaves exactly
/// what the run over `walk` alone does.
pub proof fn law_run_exclusion(
    setup: RunSetup,
    walk: Seq<(int, Seq<char>)>,
    w: (int, Seq<char>),
    tree: Map<Seq<char>, Entry>,
)
    requires
        0 <= w.0 < setup.roots.len(),
        setup.roots.len() == setup.sources.len(),
        !setup.admitted(w),
    ensures
        setup.run(walk.push(w), tree) == setup.run(walk, tree),
{
    assert(walk.push(w).drop_last() =~= walk);
}

/// Idempotence: a second run over the same walk leaves the entries exactly
/// as the first run left them, under the same condition as coverage.
pub proof fn law_run_idempotent(setup: RunSetup, walk: Seq<(int, Seq<char>)>, tree: Map<Seq<char>, Entry>)
    requires
        setup.walk_fits(walk),
        setup.no_conflict_clash(walk),
    ensures
        setup.run(walk, setup.run(walk, tree).1).1 == setup.run(walk, tree).1,
{
    law_run_coverage(setup, walk, tree);
    lemma_rerun_prefix(setup, walk, tree, walk.len() as int);
    assert(walk.subrange(0, walk.len() as int) =~= walk);
}

proof fn lemma_rerun_prefix(
    setup: RunSetup,
    walk: Seq<(int, Seq<char>)>,
    tree: Map<Seq<char>, Entry>,
    n: int,
)
    requires
        setup.walk_fits(walk),
        setup.no_conflict_clash(walk),
        0 <= n <= walk.len(),
        forall|k: int|
            0 <= k < walk.len() && setup.first_at_dest(walk, k) ==> setup.run(walk, tree).1.contains_key(
                #[trigger] setup.dest_of(walk[k]),
            ) && setup.run(walk, tree).1[setup.dest_of(walk[k])] == Entry::Link(walk[k].1),
    ensures
        setup.run(walk.subrange(0, n), setup.run(walk, tree).1) == (
            setup.claimed_upto(walk, n),
            setup.run(walk, tree).1,
        ),
    decreases n,
{
    let t1 = setup.run(walk, tree).1;
    let pre = walk.subrange(0, n);
    lemma_run_prefix(setup, walk, t1, n);
    if n == 0 {
    } else {
        lemma_rerun_prefix(setup, walk, tree, n - 1);
        assert(pre.drop_last() =~= walk.subrange(0, n - 1));
        assert(pre.last() == walk[n - 1]);
        let prev = setup.run(walk.subrange(0, n - 1), t1);
        let w = walk[n - 1];
        let d = setup.dest_of(w);
        assert(0 <= w.0 < setup.roots.len() && is_descendant(setup.roots[w.0], w.1));
        if setup.admitted(w) && !prev.0.contains(d) {
            assert(setup.first_at_dest(walk, n - 1)) by {
                assert forall|j: int| 0 <= j < n - 1 && setup.admitted(#[trigger] walk[j]) implies setup.dest_of(walk[j]) != d by {
                    if setup.dest_of(walk[j]) == d {
                        assert(setup.claimed_upto(walk, n - 1).contains(d));
                    }
                }
            }
            assert(t1[d] == Entry::Link(w.1));
            let s = plan_steps(slot_of(t1, d), w.1, d);
            reveal_with_fuel(apply_steps, 4);
            assert(s.drop_first().drop_first().drop_first() =~= Seq::<Step>::empty());
            assert(apply_steps(t1, s) =~= t1);
        }
    }
}

} // verus!
