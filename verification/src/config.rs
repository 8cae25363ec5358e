//! The configuration: a list of exclude glob patterns, kept without
//! duplicates, together with its stored line format and a proof that the
//! format round-trips.
//!
//! The stored form is a structured text file; reading and writing the file
//! is I/O and stays with the caller, which hands the lines over as plain
//! strings.

use vstd::prelude::*;
use vstd::string::StrSliceExecFns;
use vstd::string::StringExecFns;

use crate::error::AppError;
use crate::exclude::build_matcher;
use crate::exclude::ExcludeMatcher;
use crate::strutil::contains_str;
use crate::strutil::has_prefix;
use crate::strutil::join_path;
use crate::strutil::join_spec;
use crate::strutil::str_eq;

verus! {

/// The user configuration: the exclude patterns, in insertion order,
/// without duplicates among equal strings.
#[derive(Debug)]
pub struct Config {
    pub exclude: Vec<String>,
}

/// Appending a pattern adds it at the end unless an equal one is present.
pub open spec fn append_excl_spec(ps: Seq<Seq<char>>, v: Seq<char>) -> Seq<Seq<char>> {
    if ps.contains(v) {
        ps
    } else {
        ps.push(v)
    }
}

impl Config {
    pub fn new() -> (r: Config)
        ensures
            r.exclude@.len() == 0,
    {
        Config { exclude: Vec::new() }
    }

    /// Appends an exclude pattern unless an equal one is already present.
    pub fn append_exclude(&mut self, value: String)
        ensures
            final(self).exclude.deep_view() =~= append_excl_spec(
                old(self).exclude.deep_view(),
                value@,
            ),
    {
        if !contains_str(&self.exclude, value.as_str()) {
            let ghost pre = self.exclude.deep_view();
            self.exclude.push(value);
            proof {
                assert(self.exclude.deep_view() =~= pre.push(value@));
            }
        }
    }

    /// Compiles the exclude patterns into the matcher the whole run shares:
    /// no patterns exclude nothing; compilation succeeds exactly when the
    /// compiler accepts the home-expanded patterns, and the matcher then
    /// excludes exactly the paths those patterns match.
    pub fn compile_excludes(&self, home: &Option<String>) -> (r: Result<ExcludeMatcher, AppError>)
        ensures
            self.exclude@.len() == 0 ==> r is Ok && (forall|p: Seq<char>|
                !r.unwrap().excludes(p)),
            r matches Err(e) ==> (e matches AppError::Config(_) || e matches AppError::Glob(_)),
            home is Some ==> !(r matches Err(e) && e matches AppError::Config(_)),
            home is None && crate::exclude::needs_home(self.exclude.deep_view()) ==> (r matches
                Err(e) && e matches AppError::Config(_)),
            self.exclude@.len() > 0 && (home is Some || !crate::exclude::needs_home(
                self.exclude.deep_view(),
            )) ==> {
                let expanded = crate::exclude::expand_all_spec(
                    self.exclude.deep_view(),
                    crate::exclude::home_seq(*home),
                );
                &&& (r is Ok <==> crate::exclude::glob_compile_ok(expanded))
                &&& (r matches Ok(m) ==> forall|p: Seq<char>|
                    #[trigger] m.excludes(p) == crate::exclude::patterns_match(expanded, p))
            },
    {
        build_matcher(&self.exclude, home)
    }
}

impl Default for Config {
    fn default() -> (r: Config)
        ensures
            r.exclude@.len() == 0,
    {
        Config::new()
    }
}

/// How often a pattern occurs in a list.
pub open spec fn count_eq(s: Seq<Seq<char>>, v: Seq<char>) -> int
    decreases s.len(),
{
    if s.len() == 0 {
        0
    } else {
        count_eq(s.drop_last(), v) + if s.last() == v {
            1int
        } else {
            0int
        }
    }
}

/// A pattern that is not in the list occurs zero times in it.
pub proof fn lemma_count_eq_absent(s: Seq<Seq<char>>, v: Seq<char>)
    requires
        !s.contains(v),
    ensures
        count_eq(s, v) == 0,
    decreases s.len(),
{
    if s.len() > 0 {
        assert(!s.drop_last().contains(v)) by {
            if s.drop_last().contains(v) {
                let w = choose|w: int| 0 <= w < s.drop_last().len() && s.drop_last()[w] == v;
                assert(s[w] == v);
            }
        }
        lemma_count_eq_absent(s.drop_last(), v);
        assert(s.last() != v) by {
            if s.last() == v {
                assert(s[s.len() - 1] == v);
            }
        }
    }
}

/// Appending the same pattern twice is the same as appending it once.
pub proof fn lemma_append_exclude_idempotent(ps: Seq<Seq<char>>, v: Seq<char>)
    ensures
        append_excl_spec(append_excl_spec(ps, v), v) == append_excl_spec(ps, v),
{
    if !ps.contains(v) {
        assert(ps.push(v)[ps.len() as int] == v);
        assert(ps.push(v).contains(v));
    }
}

/// One stored line of a pattern: indented, quoted, comma-terminated.
pub open spec fn wrap_spec(p: Seq<char>) -> Seq<char> {
    "    \""@ + p + "\","@
}

/// The stored lines of all patterns, in order.
pub open spec fn wrap_all_spec(ps: Seq<Seq<char>>) -> Seq<Seq<char>>
    decreases ps.len(),
{
    if ps.len() == 0 {
        Seq::<Seq<char>>::empty()
    } else {
        wrap_all_spec(ps.drop_last()).push(wrap_spec(ps.last()))
    }
}

/// The stored form of a configuration, line by line.
pub open spec fn render_lines_spec(ps: Seq<Seq<char>>) -> Seq<Seq<char>> {
    if ps.len() == 0 {
        seq!["exclude = []"@]
    } else {
        seq!["exclude = ["@] + wrap_all_spec(ps) + seq!["]"@]
    }
}

/// The pattern a stored line holds, when the line has the stored shape.
pub open spec fn unwrap_spec(line: Seq<char>) -> Option<Seq<char>> {
    if line.len() >= 7 && line.take(5) == "    \""@ && line.skip(line.len() - 2) == "\","@ {
        Some(line.subrange(5, line.len() - 2))
    } else {
        None
    }
}

/// The patterns of a run of stored lines; nothing when any line is
/// malformed.
pub open spec fn unwrap_all_spec(lines: Seq<Seq<char>>) -> Option<Seq<Seq<char>>>
    decreases lines.len(),
{
    if lines.len() == 0 {
        Some(Seq::<Seq<char>>::empty())
    } else {
        match (unwrap_all_spec(lines.drop_last()), unwrap_spec(lines.last())) {
            (Some(ps), Some(p)) => Some(ps.push(p)),
            _ => None,
        }
    }
}

/// The configuration a stored file holds: an empty file is the default
/// empty configuration; otherwise the bracketed list of pattern lines.
pub open spec fn parse_lines_spec(lines: Seq<Seq<char>>) -> Option<Seq<Seq<char>>> {
    if lines.len() == 0 {
        Some(Seq::<Seq<char>>::empty())
    } else if lines == seq!["exclude = []"@] {
        Some(Seq::<Seq<char>>::empty())
    } else if lines.len() >= 2 && lines.first() == "exclude = ["@ && lines.last() == "]"@ {
        unwrap_all_spec(lines.subrange(1, lines.len() - 1))
    } else {
        None
    }
}

/// Renders a configuration into its stored lines.
pub fn render_config(config: &Config) -> (lines: Vec<String>)
    ensures
        lines.deep_view() =~= render_lines_spec(config.exclude.deep_view()),
{
    let mut lines: Vec<String> = Vec::new();
    if config.exclude.len() == 0 {
        let ghost pre = lines.deep_view();
        lines.push("exclude = []".to_owned());
        proof {
            assert(lines.deep_view() =~= pre.push("exclude = []"@));
        }
        return lines;
    }
    let ghost pre0 = lines.deep_view();
    lines.push("exclude = [".to_owned());
    proof {
        assert(lines.deep_view() =~= pre0.push("exclude = ["@));
    }
    let mut i: usize = 0;
    while i < config.exclude.len()
        invariant
            i <= config.exclude@.len(),
            lines.deep_view() =~= seq!["exclude = ["@] + wrap_all_spec(
                config.exclude.deep_view().take(i as int),
            ),
        decreases config.exclude@.len() - i,
    {
        let mut line = "    \"".to_owned();
        line.append(config.exclude[i].as_str());
        line.append("\",");
        let ghost pre = lines.deep_view();
        lines.push(line);
        proof {
            let ghost ps = config.exclude.deep_view();
            assert(ps.take(i + 1).drop_last() =~= ps.take(i as int));
            assert(ps.take(i + 1).last() == ps[i as int]);
            assert(lines.deep_view() =~= pre.push(wrap_spec(ps[i as int])));
            assert(lines.deep_view() =~= seq!["exclude = ["@] + wrap_all_spec(ps.take(i + 1)));
        }
        i = i + 1;
    }
    let ghost pre1 = lines.deep_view();
    lines.push("]".to_owned());
    proof {
        let ghost ps = config.exclude.deep_view();
        assert(ps.take(ps.len() as int) =~= ps);
        assert(lines.deep_view() =~= pre1.push("]"@));
        assert(lines.deep_view() =~= seq!["exclude = ["@] + wrap_all_spec(ps) + seq!["]"@]);
    }
    lines
}

/// Reads one stored pattern line.
fn unwrap_line(line: &str) -> (r: Option<String>)
    ensures
        match (r, unwrap_spec(line@)) {
            (Some(s), Some(p)) => s@ == p,
            (None, None) => true,
            _ => false,
        },
{
    proof {
        reveal_strlit("    \"");
        reveal_strlit("\",");
    }
    let len = line.unicode_len();
    if len < 7 {
        return None;
    }
    if !has_prefix(line, "    \"") {
        proof {
            if line@.take(5) == "    \""@ {
                assert("    \""@.is_prefix_of(line@));
            }
        }
        return None;
    }
    if line.get_char(len - 2) != '"' || line.get_char(len - 1) != ',' {
        proof {
            if line@.skip(len - 2) == "\","@ {
                assert(line@[len - 2] == "\","@[0]);
                assert(line@[len - 1] == "\","@[1]);
            }
        }
        return None;
    }
    let body = line.substring_char(5, len - 2);
    proof {
        assert(line@.take(5) =~= "    \""@);
        assert(line@.skip(len - 2) =~= "\","@);
    }
    Some(body.to_owned())
}

/// When one line of a run is malformed, the whole run is.
proof fn lemma_unwrap_all_element_none(lines: Seq<Seq<char>>, i: int)
    requires
        0 <= i < lines.len(),
        unwrap_spec(lines[i]) is None,
    ensures
        unwrap_all_spec(lines) is None,
    decreases lines.len(),
{
    if i < lines.len() - 1 {
        lemma_unwrap_all_element_none(lines.drop_last(), i);
    }
}

/// Parses the stored lines of a configuration. An empty file yields the
/// default empty configuration; a malformed file is a parse error.
pub fn parse_config(lines: &Vec<String>) -> (r: Result<Config, AppError>)
    ensures
        match r {
            Ok(c) => parse_lines_spec(lines.deep_view()) == Some(c.exclude.deep_view()),
            Err(e) => parse_lines_spec(lines.deep_view()) is None && e matches
                AppError::ConfigParse(_),
        },
{
    let n = lines.len();
    if n == 0 {
        proof {
            assert(lines.deep_view().len() == 0);
        }
        return Ok(Config::new());
    }
    if n == 1 && str_eq(lines[0].as_str(), "exclude = []") {
        proof {
            assert(lines.deep_view() =~= seq!["exclude = []"@]);
        }
        return Ok(Config::new());
    }
    if n >= 2 && str_eq(lines[0].as_str(), "exclude = [") && str_eq(lines[n - 1].as_str(), "]") {
        let ghost middle = lines.deep_view().subrange(1, n - 1);
        let mut exclude: Vec<String> = Vec::new();
        let mut i: usize = 1;
        while i < n - 1
            invariant
                n == lines@.len(),
                n >= 2,
                1 <= i <= n - 1,
                middle == lines.deep_view().subrange(1, n as int - 1),
                unwrap_all_spec(middle.take(i - 1)) == Some(exclude.deep_view()),
            decreases n - 1 - i,
        {
            match unwrap_line(lines[i].as_str()) {
                Some(p) => {
                    let ghost pre = exclude.deep_view();
                    exclude.push(p);
                    proof {
                        assert(middle.take(i as int).drop_last() =~= middle.take(i - 1));
                        assert(middle.take(i as int).last() == middle[i - 1]);
                        assert(middle[i - 1] == lines.deep_view()[i as int]);
                        assert(exclude.deep_view() =~= pre.push(
                            unwrap_spec(lines.deep_view()[i as int]).unwrap(),
                        ));
                    }
                },
                None => {
                    proof {
                        assert(middle[i - 1] == lines.deep_view()[i as int]);
                        lemma_unwrap_all_element_none(middle, i - 1);
                    }
                    return Err(
                        AppError::ConfigParse("malformed exclude entry".to_owned()),
                    );
                },
            }
            i = i + 1;
        }
        proof {
            assert(middle.take(n - 2) =~= middle);
            assert(lines.deep_view().first() == "exclude = ["@);
            assert(lines.deep_view().last() == "]"@);
            assert(lines.deep_view().len() != 1);
        }
        return Ok(Config { exclude });
    }
    proof {
        assert(parse_lines_spec(lines.deep_view()) is None) by {
            let lv = lines.deep_view();
            if lv == seq!["exclude = []"@] {
                assert(lv.len() == 1);
                assert(lv[0] == "exclude = []"@);
            }
            if lv.len() >= 2 && lv.first() == "exclude = ["@ && lv.last() == "]"@ {
                assert(false);
            }
        }
    }
    Err(AppError::ConfigParse("unrecognized configuration text".to_owned()))
}

/// A stored pattern line reads back as exactly the pattern it was made from.
pub proof fn lemma_unwrap_wrap(p: Seq<char>)
    ensures
        unwrap_spec(wrap_spec(p)) == Some(p),
{
    reveal_strlit("    \"");
    reveal_strlit("\",");
    let l = wrap_spec(p);
    assert(l.len() == p.len() + 7);
    assert(l.take(5) =~= "    \""@);
    assert(l.skip(l.len() - 2) =~= "\","@);
    assert(l.subrange(5, l.len() - 2) =~= p);
}

/// A run of stored pattern lines reads back as exactly its patterns.
pub proof fn lemma_unwrap_all_wrapped(ps: Seq<Seq<char>>)
    ensures
        unwrap_all_spec(wrap_all_spec(ps)) == Some(ps),
    decreases ps.len(),
{
    if ps.len() == 0 {
        assert(wrap_all_spec(ps).len() == 0);
    } else {
        lemma_unwrap_all_wrapped(ps.drop_last());
        lemma_unwrap_wrap(ps.last());
        let w = wrap_all_spec(ps);
        assert(w.drop_last() =~= wrap_all_spec(ps.drop_last()));
        assert(w.last() == wrap_spec(ps.last()));
        assert(ps.drop_last().push(ps.last()) =~= ps);
    }
}

/// The configuration round-trip: rendering any pattern list to its stored
/// lines and parsing them back yields the same list.
pub proof fn lemma_config_round_trip(ps: Seq<Seq<char>>)
    ensures
        parse_lines_spec(render_lines_spec(ps)) == Some(ps),
{
    reveal_strlit("exclude = []");
    reveal_strlit("exclude = [");
    reveal_strlit("]");
    let lines = render_lines_spec(ps);
    if ps.len() == 0 {
        assert(lines =~= seq!["exclude = []"@]);
        assert(parse_lines_spec(lines) == Some(Seq::<Seq<char>>::empty()));
    } else {
        assert(wrap_all_spec(ps).len() == ps.len()) by {
            lemma_wrap_all_len(ps);
        }
        assert(lines.len() == ps.len() + 2);
        assert(lines.first() == "exclude = ["@);
        assert(lines.last() == "]"@);
        assert(lines != seq!["exclude = []"@]);
        assert(lines.subrange(1, lines.len() - 1) =~= wrap_all_spec(ps));
        lemma_unwrap_all_wrapped(ps);
    }
}

proof fn lemma_wrap_all_len(ps: Seq<Seq<char>>)
    ensures
        wrap_all_spec(ps).len() == ps.len(),
    decreases ps.len(),
{
    if ps.len() > 0 {
        lemma_wrap_all_len(ps.drop_last());
    }
}

/// The full round-trip law: appending one new exclude pattern — even twice —
/// and reloading the stored configuration yields that pattern exactly once.
pub proof fn lemma_exclude_round_trip_once(ps: Seq<Seq<char>>, v: Seq<char>)
    requires
        !ps.contains(v),
    ensures
        append_excl_spec(append_excl_spec(ps, v), v) == ps.push(v),
        parse_lines_spec(render_lines_spec(append_excl_spec(append_excl_spec(ps, v), v)))
            == Some(ps.push(v)),
        count_eq(ps.push(v), v) == 1,
{
    lemma_append_exclude_idempotent(ps, v);
    lemma_config_round_trip(ps.push(v));
    lemma_count_eq_absent(ps, v);
    assert(ps.push(v).drop_last() =~= ps);
    assert(ps.push(v).last() == v);
}

/// The path of the stored configuration file below the chosen configuration
/// root: an explicit override wins over the platform directory; with
/// neither, configuration is impossible.
pub fn config_file_path(override_dir: &Option<String>, platform_dir: &Option<String>) -> (r:
    Result<String, AppError>)
    ensures
        match r {
            Ok(p) => (override_dir is Some || platform_dir is Some) && p@ == join_spec(
                if override_dir is Some {
                    override_dir.unwrap()@
                } else {
                    platform_dir.unwrap()@
                },
                "pure/config.toml"@,
            ),
            Err(e) => override_dir is None && platform_dir is None && e matches AppError::Config(
                _,
            ),
        },
{
    let root = match override_dir {
        Some(d) => d,
        None => match platform_dir {
            Some(d) => d,
            None => {
                return Err(
                    AppError::config(
                        "Unable to determine configuration directory for this platform".to_owned(),
                    ),
                );
            },
        },
    };
    Ok(join_path(root.as_str(), "pure/config.toml"))
}

} // verus!
