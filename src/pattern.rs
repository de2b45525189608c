use vstd::prelude::*;
use crate::engine::MirrorError;

verus! {

/// Whether `regex::Regex::new` accepts `pattern` under its default limits.
pub uninterp spec fn regex_accepts(pattern: Seq<char>) -> bool;

/// Whether the regular expression `pattern` matches somewhere in `text`.
pub uninterp spec fn regex_finds(pattern: Seq<char>, text: Seq<char>) -> bool;

#[verifier::external_type_specification]
#[verifier::external_body]
pub struct ExRegex(regex::Regex);

#[verifier::external_type_specification]
#[verifier::external_body]
pub struct ExRegexError(regex::Error);

/// Relies on `regex::Regex::new`: it succeeds exactly on the patterns it
/// accepts, which depends on the pattern text alone.
#[verifier::external_body]
fn compile_regex(pattern: &str) -> (r: Result<regex::Regex, regex::Error>)
    ensures
        r is Ok <==> regex_accepts(pattern@),
{
    regex::Regex::new(pattern)
}

/// An exclusion pattern compiled once, together with its text.
pub struct ExcludePattern {
    source: String,
    compiled: regex::Regex,
}

/// Relies on `regex::Regex::is_match`: whether the regex compiled from
/// `p.source` (the only way an `ExcludePattern` is built) matches anywhere in
/// `text`.
#[verifier::external_body]
fn regex_is_match(p: &ExcludePattern, text: &str) -> (r: bool)
    ensures
        r == regex_finds(p.source(), text@),
{
    p.compiled.is_match(text)
}

/// Some pattern of `sources` matches `text`.
pub open spec fn excluded_by(sources: Seq<Seq<char>>, text: Seq<char>) -> bool {
    exists|i: int| 0 <= i < sources.len() && regex_finds(#[trigger] sources[i], text)
}

/// Every pattern of `sources` is accepted by the regex compiler.
pub open spec fn all_accepted(sources: Seq<Seq<char>>) -> bool {
    forall|i: int| 0 <= i < sources.len() ==> regex_accepts(#[trigger] sources[i])
}

impl ExcludePattern {
    /// The text the pattern was compiled from.
    pub closed spec fn source(&self) -> Seq<char> {
        self.source@
    }

    /// Compiles `source`; fails with `InvalidPattern` naming it when the
    /// regex compiler refuses it.
    pub fn new(source: &String) -> (r: Result<ExcludePattern, MirrorError>)
        ensures
            r is Ok <==> regex_accepts(source@),
            r matches Ok(p) ==> p.source() == source@,
            r matches Err(e) ==> e.is_invalid_pattern(source@),
    {
        match compile_regex(source.as_str()) {
            Ok(compiled) => Ok(ExcludePattern { source: source.clone(), compiled }),
            Err(_) => Err(MirrorError::InvalidPattern { pattern: source.clone() }),
        }
    }

    /// Whether the pattern matches anywhere in `text`.
    pub fn is_match(&self, text: &str) -> (r: bool)
        ensures
            r == regex_finds(self.source(), text@),
    {
        regex_is_match(self, text)
    }

    /// The text the pattern was compiled from.
    pub fn as_str(&self) -> (r: &str)
        ensures
            r@ == self.source(),
    {
        self.source.as_str()
    }
}

/// The texts of a sequence of compiled patterns.
pub open spec fn sources_of(ps: Seq<ExcludePattern>) -> Seq<Seq<char>> {
    ps.map_values(|p: ExcludePattern| p.source())
}

/// Compiles every pattern of `texts`, in order. Fails on the first one the
/// regex compiler refuses, naming it; nothing is compiled past it.
pub fn compile_all(texts: &Vec<String>) -> (r: Result<Vec<ExcludePattern>, MirrorError>)
    ensures
        r is Ok <==> all_accepted(texts@.map_values(|s: String| s@)),
        r matches Ok(ps) ==> sources_of(ps@) == texts@.map_values(|s: String| s@),
        r matches Err(e) ==> exists|i: int|
            0 <= i < texts.len() && !regex_accepts(#[trigger] texts@[i]@) && e.is_invalid_pattern(
                texts@[i]@,
            ) && forall|j: int| 0 <= j < i ==> regex_accepts(#[trigger] texts@[j]@),
{
    let ghost views = texts@.map_values(|s: String| s@);
    let mut out: Vec<ExcludePattern> = Vec::new();
    let mut i: usize = 0;
    while i < texts.len()
        invariant
            i <= texts.len(),
            views == texts@.map_values(|s: String| s@),
            out.len() == i,
            forall|k: int| 0 <= k < i ==> (#[trigger] out@[k]).source() == texts@[k]@,
            forall|k: int| 0 <= k < i ==> regex_accepts(#[trigger] texts@[k]@),
        decreases texts.len() - i,
    {
        match ExcludePattern::new(&texts[i]) {
            Ok(p) => {
                out.push(p);
            },
            Err(e) => {
                assert(!regex_accepts(views[i as int]));
                return Err(e);
            },
        }
        i = i + 1;
    }
    assert(sources_of(out@) =~= views);
    Ok(out)
}

/// Whether any of `patterns` matches `text`.
pub fn any_match(patterns: &Vec<ExcludePattern>, text: &str) -> (r: bool)
    ensures
        r == excluded_by(sources_of(patterns@), text@),
{
    let ghost srcs = sources_of(patterns@);
    let mut i: usize = 0;
    while i < patterns.len()
        invariant
            i <= patterns.len(),
            srcs == sources_of(patterns@),
            forall|k: int| 0 <= k < i ==> !regex_finds(#[trigger] srcs[k], text@),
        decreases patterns.len() - i,
    {
        if patterns[i].is_match(text) {
            assert(regex_finds(srcs[i as int], text@));
            return true;
        }
        i = i + 1;
    }
    false
}

} // verus!
