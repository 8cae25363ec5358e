//! The exclusion matcher: a compiled set of user glob patterns that
//! suppresses matching paths from discovery, sizing, and deletion.

use vstd::prelude::*;
use vstd::string::StrSliceExecFns;
use vstd::string::StringExecFns;

use crate::error::AppError;
use crate::strutil::join_path;
use crate::strutil::join_spec;

verus! {

#[verifier::external_type_specification]
#[verifier::external_body]
pub struct ExGlobSet(globset::GlobSet);

/// Whether a compiled pattern set matches a candidate path. Matching is a
/// pure function of the compiled set and the path characters.
pub uninterp spec fn glob_set_matches(s: globset::GlobSet, path: Seq<char>) -> bool;

/// Relies on globset::GlobSet::is_match: a pure test of the candidate path
/// against the compiled set, with the same answer for the same arguments.
#[verifier::external_body]
fn glob_is_match(s: &globset::GlobSet, path: &str) -> (r: bool)
    ensures
        r == glob_set_matches(*s, path@),
{
    s.is_match(path)
}

/// Whether the glob compiler accepts a pattern list; compilation is
/// deterministic, so acceptance is a function of the patterns alone.
pub uninterp spec fn glob_compile_ok(patterns: Seq<Seq<char>>) -> bool;

/// Whether a pattern list, compiled as a set, matches a candidate path; a
/// function of the patterns and the path alone. Two compilations of the
/// same pattern list therefore provably match the same paths.
pub uninterp spec fn patterns_match(patterns: Seq<Seq<char>>, path: Seq<char>) -> bool;

/// Relies on globset::Glob::new and globset::GlobSetBuilder: compiles the
/// pattern list, failing when a pattern is syntactically invalid or the set
/// cannot be compiled. Acceptance and the compiled set's matching are both
/// deterministic in the pattern list.
#[verifier::external_body]
fn compile_globs(patterns: &Vec<String>) -> (r: Result<globset::GlobSet, String>)
    ensures
        r is Ok <==> glob_compile_ok(patterns.deep_view()),
        r matches Ok(s) ==> forall|p: Seq<char>|
            #[trigger] glob_set_matches(s, p) == patterns_match(patterns.deep_view(), p),
{
    let mut builder = globset::GlobSetBuilder::new();
    for pattern in patterns.iter() {
        match globset::Glob::new(pattern) {
            Ok(g) => {
                builder.add(g);
            },
            Err(e) => {
                return Err(e.to_string());
            },
        }
    }
    builder.build().map_err(|e| e.to_string())
}

/// A compiled, read-only set of exclusion patterns. `set` is `None` when no
/// patterns were configured, and then nothing is excluded.
pub struct ExcludeMatcher {
    pub set: Option<globset::GlobSet>,
}

impl ExcludeMatcher {
    /// Whether the matcher excludes a path.
    pub open spec fn excludes(self, path: Seq<char>) -> bool {
        match self.set {
            Option::Some(s) => glob_set_matches(s, path),
            Option::None => false,
        }
    }

    /// A matcher that excludes nothing.
    pub fn empty() -> (r: ExcludeMatcher)
        ensures
            forall|p: Seq<char>| !r.excludes(p),
    {
        ExcludeMatcher { set: None }
    }

    /// Tests one already-resolved path against the matcher.
    pub fn is_match(&self, path: &str) -> (r: bool)
        ensures
            r == self.excludes(path@),
    {
        match &self.set {
            Some(s) => glob_is_match(s, path),
            None => false,
        }
    }
}

/// An absolute path stands for itself; a relative one is resolved against
/// the current working directory before matching.
pub open spec fn resolve_path_spec(path: Seq<char>, cwd: Seq<char>) -> Seq<char> {
    if path.len() > 0 && path[0] == '/' {
        path
    } else {
        join_spec(cwd, path)
    }
}

/// Whether a path, resolved against `cwd`, is excluded.
pub fn is_excluded(path: &str, matcher: &ExcludeMatcher, cwd: &str) -> (r: bool)
    ensures
        r == matcher.excludes(resolve_path_spec(path@, cwd@)),
{
    if path.unicode_len() > 0 && path.get_char(0) == '/' {
        matcher.is_match(path)
    } else {
        let joined = join_path(cwd, path);
        matcher.is_match(joined.as_str())
    }
}

/// A leading `~` component expanded to the home directory.
pub open spec fn expand_home_spec(pattern: Seq<char>, home: Seq<char>) -> Seq<char> {
    if pattern =~= "~"@ {
        home
    } else if pattern.len() >= 2 && pattern[0] == '~' && pattern[1] == '/' {
        home + pattern.skip(1)
    } else {
        pattern
    }
}

/// Expands a leading `~` in one pattern. Fails only when the pattern needs
/// the home directory and none is known.
pub fn expand_home(pattern: &str, home: &Option<String>) -> (r: Result<String, AppError>)
    ensures
        match r {
            Ok(expanded) => (pattern@.len() == 0 || pattern@[0] != '~' || home is Some)
                && expanded@ == expand_home_spec(pattern@, if home is Some {
                home.unwrap()@
            } else {
                Seq::<char>::empty()
            }),
            Err(e) => pattern@.len() > 0 && pattern@[0] == '~' && home is None && e matches
                AppError::Config(_),
        },
{
    let plen = pattern.unicode_len();
    if plen == 0 || pattern.get_char(0) != '~' {
        proof {
            assert(!(pattern@ =~= "~"@)) by {
                reveal_strlit("~");
            }
        }
        return Ok(pattern.to_owned());
    }
    let h = match home {
        Some(h) => h,
        None => {
            return Err(AppError::config(
                "Unable to expand '~' because the home directory is unknown".to_owned(),
            ));
        },
    };
    if plen == 1 {
        proof {
            reveal_strlit("~");
            assert(pattern@ =~= "~"@);
        }
        Ok(h.as_str().to_owned())
    } else if pattern.get_char(1) == '/' {
        proof {
            assert(!(pattern@ =~= "~"@)) by {
                reveal_strlit("~");
            }
        }
        let mut s = h.as_str().to_owned();
        let rest = pattern.substring_char(1, plen);
        s.append(rest);
        proof {
            assert(pattern@.subrange(1, plen as int) =~= pattern@.skip(1));
        }
        Ok(s)
    } else {
        proof {
            assert(!(pattern@ =~= "~"@)) by {
                reveal_strlit("~");
            }
        }
        Ok(pattern.to_owned())
    }
}

/// The home directory a pattern expansion sees: the known one, or nothing.
pub open spec fn home_seq(home: Option<String>) -> Seq<char> {
    match home {
        Option::Some(h) => h@,
        Option::None => Seq::<char>::empty(),
    }
}

/// Every pattern of the list with its leading `~` expanded.
pub open spec fn expand_all_spec(ps: Seq<Seq<char>>, home: Seq<char>) -> Seq<Seq<char>>
    decreases ps.len(),
{
    if ps.len() == 0 {
        Seq::<Seq<char>>::empty()
    } else {
        expand_all_spec(ps.drop_last(), home).push(expand_home_spec(ps.last(), home))
    }
}

/// Whether some pattern of the list needs the home directory.
pub open spec fn needs_home(ps: Seq<Seq<char>>) -> bool {
    exists|i: int| 0 <= i < ps.len() && (#[trigger] ps[i]).len() > 0 && ps[i][0] == '~'
}

/// Builds the matcher for a pattern list, expanding a leading `~` in each
/// pattern first. An empty list yields a matcher that excludes nothing.
/// Construction fails exactly when a pattern needs an unknown home directory
/// or the compiler rejects the expanded list; a built matcher excludes
/// exactly the paths the expanded pattern list matches.
pub fn build_matcher(patterns: &Vec<String>, home: &Option<String>) -> (r: Result<
    ExcludeMatcher,
    AppError,
>)
    ensures
        patterns@.len() == 0 ==> r is Ok && (forall|p: Seq<char>|
            !r.unwrap().excludes(p)),
        r matches Err(e) ==> (e matches AppError::Config(_) || e matches AppError::Glob(_)),
        home is Some ==> !(r matches Err(e) && e matches AppError::Config(_)),
        home is None && needs_home(patterns.deep_view()) ==> (r matches Err(e) && e matches
            AppError::Config(_)),
        patterns@.len() > 0 && (home is Some || !needs_home(patterns.deep_view())) ==> {
            let expanded = expand_all_spec(patterns.deep_view(), home_seq(*home));
            &&& (r is Ok <==> glob_compile_ok(expanded))
            &&& (r matches Ok(m) ==> forall|p: Seq<char>|
                #[trigger] m.excludes(p) == patterns_match(expanded, p))
        },
{
    if patterns.len() == 0 {
        return Ok(ExcludeMatcher::empty());
    }
    let mut expanded: Vec<String> = Vec::new();
    let mut i: usize = 0;
    while i < patterns.len()
        invariant
            i <= patterns@.len(),
            home is None ==> forall|k: int|
                0 <= k < i ==> (#[trigger] patterns.deep_view()[k]).len() == 0
                    || patterns.deep_view()[k][0] != '~',
            expanded.deep_view() =~= expand_all_spec(
                patterns.deep_view().take(i as int),
                home_seq(*home),
            ),
        decreases patterns@.len() - i,
    {
        match expand_home(patterns[i].as_str(), home) {
            Ok(e) => {
                let ghost pre = expanded.deep_view();
                let ghost ps = patterns.deep_view();
                expanded.push(e);
                proof {
                    assert(ps.take(i + 1).drop_last() =~= ps.take(i as int));
                    assert(ps.take(i + 1).last() == ps[i as int]);
                    assert(expanded.deep_view() =~= pre.push(
                        expand_home_spec(ps[i as int], home_seq(*home)),
                    ));
                }
            },
            Err(e) => {
                proof {
                    assert(patterns.deep_view()[i as int].len() > 0 && patterns.deep_view()[
                        i as int][0] == '~');
                }
                return Err(e);
            },
        }
        i = i + 1;
    }
    proof {
        assert(patterns.deep_view().take(patterns@.len() as int) =~= patterns.deep_view());
    }
    match compile_globs(&expanded) {
        Ok(set) => Ok(ExcludeMatcher { set: Some(set) }),
        Err(msg) => Err(AppError::Glob(msg)),
    }
}

} // verus!
