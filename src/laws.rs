use vstd::prelude::*;
use crate::engine::{claims_after, destination, verdict, Verdict};
use crate::paths::{conflict_name, is_descendant};
use crate::pattern::excluded_by;
use crate::resolve::{
    apply_steps, describes, message_text, plan_notes, plan_steps, Entry, Note, Slot, Step,
};

verus! {

/// A file whose path an exclusion pattern of its folder matches is decided
/// `Excluded`: nothing is claimed for it and no step is planned, so no
/// destination entry is created or altered on its account.
pub proof fn law_exclusion(
    root: Seq<char>,
    sources: Seq<Seq<char>>,
    dest_root: Seq<char>,
    claimed: Set<Seq<char>>,
    file: Seq<char>,
)
    requires
        is_descendant(root, file),
        excluded_by(sources, file),
    ensures
        verdict(root, sources, dest_root, claimed, file) == Verdict::Excluded,
        claims_after(claimed, verdict(root, sources, dest_root, claimed, file)) == claimed,
{
}

/// Two files, `a` from an earlier folder and `b` from a later one, that map
/// to the same destination: whatever came first, `b` is a duplicate and is
/// skipped; when the destination was still free, `a` claims it and its plan
/// makes the destination a link to `a`.
pub proof fn law_first_writer_wins(
    root_a: Seq<char>,
    sources_a: Seq<Seq<char>>,
    root_b: Seq<char>,
    sources_b: Seq<Seq<char>>,
    dest_root: Seq<char>,
    claimed: Set<Seq<char>>,
    a: Seq<char>,
    b: Seq<char>,
    tree: Map<Seq<char>, Entry>,
    slot: Slot,
)
    requires
        is_descendant(root_a, a),
        !excluded_by(sources_a, a),
        is_descendant(root_b, b),
        !excluded_by(sources_b, b),
        destination(root_a, dest_root, a) == destination(root_b, dest_root, b),
        describes(slot, tree, destination(root_a, dest_root, a)),
    ensures
        ({
            let d = destination(root_a, dest_root, a);
            let va = verdict(root_a, sources_a, dest_root, claimed, a);
            let vb = verdict(root_b, sources_b, dest_root, claims_after(claimed, va), b);
            &&& vb == Verdict::Duplicate(d)
            &&& !claimed.contains(d) ==> va == Verdict::Mirror(d)
            &&& apply_steps(tree, plan_steps(slot, a, d))[d] == Entry::Link(a)
        }),
{
    let d = destination(root_a, dest_root, a);
    lemma_plan_links(tree, slot, a, d);
}

/// Whatever occupies `dest`, the planned steps leave a link to `source`
/// there.
pub proof fn lemma_plan_links(tree: Map<Seq<char>, Entry>, slot: Slot, source: Seq<char>, dest: Seq<char>)
    requires
        describes(slot, tree, dest),
    ensures
        apply_steps(tree, plan_steps(slot, source, dest)).contains_key(dest),
        apply_steps(tree, plan_steps(slot, source, dest))[dest] == Entry::Link(source),
{
    lemma_conflict_name_differs(dest);
    let s = plan_steps(slot, source, dest);
    reveal_with_fuel(apply_steps, 4);
    if s.len() == 2 {
        assert(s.drop_first().drop_first() =~= Seq::<Step>::empty());
    } else {
        assert(s.drop_first().drop_first().drop_first() =~= Seq::<Step>::empty());
    }
}

/// A path with the conflict suffix appended is another path.
pub proof fn lemma_conflict_name_differs(p: Seq<char>)
    ensures
        conflict_name(p) != p,
{
    assert(conflict_name(p).len() == p.len() + 9);
}

/// A file that lies below its root, is not excluded, and whose destination
/// is still free, is mirrored at its destination under the destination
/// root; after its steps that destination is a link to the file.
pub proof fn law_coverage(
    root: Seq<char>,
    sources: Seq<Seq<char>>,
    dest_root: Seq<char>,
    claimed: Set<Seq<char>>,
    file: Seq<char>,
    tree: Map<Seq<char>, Entry>,
    slot: Slot,
)
    requires
        is_descendant(root, file),
        !excluded_by(sources, file),
        !claimed.contains(destination(root, dest_root, file)),
        describes(slot, tree, destination(root, dest_root, file)),
    ensures
        ({
            let d = destination(root, dest_root, file);
            &&& verdict(root, sources, dest_root, claimed, file) == Verdict::Mirror(d)
            &&& apply_steps(tree, plan_steps(slot, file, d))[d] == Entry::Link(file)
        }),
{
    lemma_plan_links(tree, slot, file, destination(root, dest_root, file));
}

/// A regular file with contents `c` at `dest` is found unchanged at the
/// conflict path after the steps, and `dest` is a link to `source`.
pub proof fn law_conflict_with_regular_file(
    tree: Map<Seq<char>, Entry>,
    source: Seq<char>,
    dest: Seq<char>,
    c: Seq<u8>,
)
    requires
        tree.contains_key(dest),
        tree[dest] == Entry::File(c),
    ensures
        ({
            let after = apply_steps(tree, plan_steps(Slot::RegularFile, source, dest));
            &&& after.contains_key(conflict_name(dest))
            &&& after[conflict_name(dest)] == Entry::File(c)
            &&& after[dest] == Entry::Link(source)
        }),
{
    lemma_conflict_name_differs(dest);
    let s = plan_steps(Slot::RegularFile, source, dest);
    reveal_with_fuel(apply_steps, 4);
    assert(s.drop_first().drop_first().drop_first() =~= Seq::<Step>::empty());
}

/// A link at `dest` to another path `g` becomes a link to `source`, and
/// exactly one event is logged: the replacement, whose line names both `g`
/// and `source`.
pub proof fn law_conflict_with_stale_link(
    tree: Map<Seq<char>, Entry>,
    g: Seq<char>,
    source: Seq<char>,
    dest: Seq<char>,
)
    requires
        tree.contains_key(dest),
        tree[dest] == Entry::Link(g),
    ensures
        apply_steps(tree, plan_steps(Slot::Symlink(g), source, dest))[dest] == Entry::Link(source),
        plan_notes(Slot::Symlink(g), source, dest) == seq![Note::Replaced(dest, g, source)],
        message_text(Note::Replaced(dest, g, source)) == "Replaced existing symlink: "@ + dest
            + " -> "@ + g + ", now -> "@ + source,
{
    lemma_plan_links(tree, Slot::Symlink(g), source, dest);
}

} // verus!
