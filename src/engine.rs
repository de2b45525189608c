use vstd::prelude::*;
use crate::config::ApiConfig;
use crate::dedup::DedupSet;
use crate::paths::{is_descendant, join_path, joined, relative, relative_path};
use crate::pattern::{
    all_accepted, any_match, compile_all, excluded_by, regex_accepts, sources_of, ExcludePattern,
};

verus! {

/// Why a run stops.
#[derive(Clone, Debug)]
pub enum MirrorError {
    /// An exclusion pattern that the regex compiler refuses.
    InvalidPattern { pattern: String },
    /// A walked file that does not lie below the root it was walked from.
    NotUnderRoot { root: String, file: String },
}

impl MirrorError {
    /// This is the error for the refused pattern `p`.
    pub open spec fn is_invalid_pattern(&self, p: Seq<char>) -> bool {
        self matches MirrorError::InvalidPattern { pattern } && pattern@ == p
    }
}

/// What becomes of one walked file, over character sequences.
pub enum Verdict {
    /// The file is not below its folder's root.
    OutsideRoot,
    /// An exclusion pattern of its folder matches the file's path.
    Excluded,
    /// Its destination was claimed earlier in the run.
    Duplicate(Seq<char>),
    /// Its destination is claimed now and is to become a link to it.
    Mirror(Seq<char>),
}

/// The destination of `file`, walked under `root`, in the tree at `dest_root`.
pub open spec fn destination(root: Seq<char>, dest_root: Seq<char>, file: Seq<char>) -> Seq<char> {
    joined(dest_root, relative(root, file))
}

/// The verdict on `file`, walked under `root` with exclusion patterns
/// `sources`, when `claimed` holds the destinations claimed so far.
/// Exclusion is decided before any claim.
pub open spec fn verdict(
    root: Seq<char>,
    sources: Seq<Seq<char>>,
    dest_root: Seq<char>,
    claimed: Set<Seq<char>>,
    file: Seq<char>,
) -> Verdict {
    if !is_descendant(root, file) {
        Verdict::OutsideRoot
    } else if excluded_by(sources, file) {
        Verdict::Excluded
    } else {
        let d = destination(root, dest_root, file);
        if claimed.contains(d) {
            Verdict::Duplicate(d)
        } else {
            Verdict::Mirror(d)
        }
    }
}

/// The claimed destinations once `v` has been reached.
pub open spec fn claims_after(claimed: Set<Seq<char>>, v: Verdict) -> Set<Seq<char>> {
    match v {
        Verdict::Mirror(d) => claimed.insert(d),
        _ => claimed,
    }
}

/// What becomes of one walked file.
#[derive(Clone, Debug)]
pub enum Decision {
    Excluded,
    Duplicate { dest: String },
    Mirror { dest: String },
}

impl Decision {
    pub open spec fn view(&self) -> Verdict {
        match self {
            Decision::Excluded => Verdict::Excluded,
            Decision::Duplicate { dest } => Verdict::Duplicate(dest@),
            Decision::Mirror { dest } => Verdict::Mirror(dest@),
        }
    }
}

struct SourceFolder {
    root: String,
    patterns: Vec<ExcludePattern>,
}

/// One run's state: each folder's root with its compiled patterns, the
/// destination root, and the destinations claimed so far.
pub struct Mirror {
    folders: Vec<SourceFolder>,
    dest_root: String,
    claimed: DedupSet,
}

impl Mirror {
    pub closed spec fn folder_count(&self) -> nat {
        self.folders@.len()
    }

    pub closed spec fn root(&self, i: int) -> Seq<char> {
        self.folders@[i].root@
    }

    pub closed spec fn sources(&self, i: int) -> Seq<Seq<char>> {
        sources_of(self.folders@[i].patterns@)
    }

    pub closed spec fn dest_root(&self) -> Seq<char> {
        self.dest_root@
    }

    pub closed spec fn claimed(&self) -> Set<Seq<char>> {
        self.claimed@
    }

    /// `self` was set up from `config`, folder by folder.
    pub open spec fn set_up_from(&self, config: &ApiConfig) -> bool {
        &&& self.folder_count() == config.folders.len()
        &&& self.dest_root() == config.symlink_root@
        &&& forall|i: int|
            0 <= i < config.folders.len() ==> self.root(i) == (#[trigger] config.folders@[i]).path@
                && self.sources(i) == config.folders@[i].pattern_texts()
    }

    /// `self` and `other` differ at most in what they have claimed.
    pub open spec fn same_folders(&self, other: &Mirror) -> bool {
        &&& self.folder_count() == other.folder_count()
        &&& self.dest_root() == other.dest_root()
        &&& forall|i: int|
            0 <= i < self.folder_count() ==> self.root(i) == other.root(i) && self.sources(i)
                == other.sources(i)
    }

    /// The number of folders, in configuration order.
    pub fn num_folders(&self) -> (r: usize)
        ensures
            r == self.folder_count(),
    {
        self.folders.len()
    }

    /// Compiles every folder's exclusion patterns, before anything is walked
    /// or touched. Fails on the first pattern the regex compiler refuses.
    pub fn new(config: &ApiConfig) -> (r: Result<Mirror, MirrorError>)
        ensures
            r is Ok <==> forall|i: int|
                0 <= i < config.folders.len() ==> all_accepted(
                    (#[trigger] config.folders@[i]).pattern_texts(),
                ),
            r matches Ok(m) ==> m.set_up_from(config) && m.claimed() == Set::<Seq<char>>::empty(),
            r matches Err(e) ==> exists|i: int, j: int|
                0 <= i < config.folders.len() && 0 <= j < config.folders@[i].exclude.len()
                    && !regex_accepts(#[trigger] config.folders@[i].exclude@[j]@)
                    && e.is_invalid_pattern(config.folders@[i].exclude@[j]@),
    {
        let mut folders: Vec<SourceFolder> = Vec::new();
        let mut i: usize = 0;
        while i < config.folders.len()
            invariant
                i <= config.folders.len(),
                folders.len() == i,
                forall|k: int|
                    0 <= k < i ==> (#[trigger] folders@[k]).root@ == config.folders@[k].path@
                        && sources_of(folders@[k].patterns@) == config.folders@[k].pattern_texts(),
                forall|k: int| 0 <= k < i ==> all_accepted((#[trigger] config.folders@[k]).pattern_texts()),
            decreases config.folders.len() - i,
        {
            let f = &config.folders[i];
            match compile_all(&f.exclude) {
                Ok(patterns) => {
                    folders.push(SourceFolder { root: f.path.clone(), patterns });
                },
                Err(e) => {
                    assert(!all_accepted(config.folders@[i as int].pattern_texts()));
                    return Err(e);
                },
            }
            i = i + 1;
        }
        let m = Mirror {
            folders,
            dest_root: config.symlink_root.clone(),
            claimed: DedupSet::new(),
        };
        Ok(m)
    }

    /// Decides what becomes of `file`, walked under folder `folder`: an
    /// error when it is not below that folder's root; else excluded when a
    /// pattern of the folder matches its path; else its destination, which
    /// is claimed now or was claimed earlier in the run.
    pub fn decide(&mut self, folder: usize, file: &String) -> (r: Result<Decision, MirrorError>)
        requires
            folder < old(self).folder_count(),
        ensures
            ({
                let v = verdict(
                    old(self).root(folder as int),
                    old(self).sources(folder as int),
                    old(self).dest_root(),
                    old(self).claimed(),
                    file@,
                );
                &&& (r is Err <==> v is OutsideRoot)
                &&& (r matches Err(e) ==> e is NotUnderRoot)
                &&& (r matches Ok(d) ==> d@ == v)
                &&& final(self).claimed() == claims_after(old(self).claimed(), v)
            }),
            final(self).same_folders(old(self)),
    {
        let f = &self.folders[folder];
        let rel = match relative_path(f.root.as_str(), file.as_str()) {
            Some(rel) => rel,
            None => {
                return Err(MirrorError::NotUnderRoot { root: f.root.clone(), file: file.clone() });
            },
        };
        if any_match(&f.patterns, file.as_str()) {
            return Ok(Decision::Excluded);
        }
        let dest = join_path(self.dest_root.as_str(), rel.as_str());
        if self.claimed.claim(&dest) {
            Ok(Decision::Mirror { dest })
        } else {
            Ok(Decision::Duplicate { dest })
        }
    }
}

} // verus!
