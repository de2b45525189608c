use vstd::prelude::*;

verus! {

/// One source tree to mirror and the patterns that exclude files from it.
#[derive(Clone, Debug)]
pub struct FolderConfig {
    /// Root directory of the source tree.
    pub path: String,
    /// Regular expressions matched against each file's full path.
    pub exclude: Vec<String>,
}

/// The folders to mirror, in order, and the directory the links go under.
#[derive(Clone, Debug)]
pub struct ApiConfig {
    pub folders: Vec<FolderConfig>,
    pub symlink_root: String,
}

impl FolderConfig {
    /// The exclusion patterns as character sequences.
    pub open spec fn pattern_texts(&self) -> Seq<Seq<char>> {
        self.exclude@.map_values(|s: String| s@)
    }
}

} // verus!
