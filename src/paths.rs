use vstd::prelude::*;
use crate::text::{chars_of, push_all, string_of};

verus! {

/// `root` as a directory prefix: unchanged when empty or already ending in
/// `/`, else with one `/` appended.
pub open spec fn dir_prefix(root: Seq<char>) -> Seq<char> {
    if root.len() == 0 || root.last() == '/' {
        root
    } else {
        root.push('/')
    }
}

/// The relative path `rel` placed under the directory `base`.
pub open spec fn joined(base: Seq<char>, rel: Seq<char>) -> Seq<char> {
    dir_prefix(base) + rel
}

/// `file` lies strictly below the directory `root`.
pub open spec fn is_descendant(root: Seq<char>, file: Seq<char>) -> bool {
    let p = dir_prefix(root);
    p.len() < file.len() && file.subrange(0, p.len() as int) == p
}

/// What is left of `file` once the directory prefix of `root` is taken off.
pub open spec fn relative(root: Seq<char>, file: Seq<char>) -> Seq<char> {
    file.subrange(dir_prefix(root).len() as int, file.len() as int)
}

/// The suffix that marks a displaced regular file.
pub open spec fn conflict_suffix() -> Seq<char> {
    seq!['.', 'c', 'o', 'n', 'f', 'l', 'i', 'c', 't']
}

/// Where a regular file found at `p` is moved aside to.
pub open spec fn conflict_name(p: Seq<char>) -> Seq<char> {
    p + conflict_suffix()
}

fn dir_prefix_chars(root: &Vec<char>) -> (r: Vec<char>)
    ensures
        r@ == dir_prefix(root@),
{
    let mut r: Vec<char> = Vec::new();
    push_all(&mut r, root);
    assert(r@ == root@);
    if root.len() > 0 && root[root.len() - 1] != '/' {
        r.push('/');
    }
    r
}

/// The path of `rel` under the directory `base` (`base/rel`).
pub fn join_path(base: &str, rel: &str) -> (r: String)
    ensures
        r@ == joined(base@, rel@),
{
    let b = chars_of(base);
    let mut out = dir_prefix_chars(&b);
    let rc = chars_of(rel);
    push_all(&mut out, &rc);
    string_of(&out)
}

/// `file` relative to the directory `root`; `None` when `file` does not lie
/// strictly below `root`.
pub fn relative_path(root: &str, file: &str) -> (r: Option<String>)
    ensures
        r is Some <==> is_descendant(root@, file@),
        r matches Some(t) ==> t@ == relative(root@, file@),
{
    let rc = chars_of(root);
    let p = dir_prefix_chars(&rc);
    let f = chars_of(file);
    if p.len() >= f.len() {
        return None;
    }
    let mut i: usize = 0;
    while i < p.len()
        invariant
            i <= p.len(),
            p.len() < f.len(),
            p@ == dir_prefix(root@),
            f@ == file@,
            forall|k: int| 0 <= k < i ==> f@[k] == p@[k],
        decreases p.len() - i,
    {
        if f[i] != p[i] {
            assert(f@.subrange(0, p.len() as int)[i as int] != p@[i as int]);
            assert(f@.subrange(0, p.len() as int) != p@);
            assert(!is_descendant(root@, file@));
            return None;
        }
        i = i + 1;
    }
    assert(f@.subrange(0, p.len() as int) =~= p@);
    let mut rest: Vec<char> = Vec::new();
    let mut j: usize = p.len();
    while j < f.len()
        invariant
            p.len() <= j <= f.len(),
            p@ == dir_prefix(root@),
            f@ == file@,
            rest@ == f@.subrange(p.len() as int, j as int),
        decreases f.len() - j,
    {
        rest.push(f[j]);
        j = j + 1;
        assert(rest@ =~= f@.subrange(p.len() as int, j as int));
    }
    Some(string_of(&rest))
}

/// The path a regular file at `p` is moved to when a link takes its place.
pub fn conflict_path(p: &str) -> (r: String)
    ensures
        r@ == conflict_name(p@),
{
    let mut out = chars_of(p);
    out.push('.');
    out.push('c');
    out.push('o');
    out.push('n');
    out.push('f');
    out.push('l');
    out.push('i');
    out.push('c');
    out.push('t');
    assert(out@ =~= conflict_name(p@));
    string_of(&out)
}

} // verus!
