//! Presentation helpers: byte counts for humans, home-relative paths, and
//! the resolution of scan roots.

use vstd::prelude::*;
use vstd::string::StrSliceExecFns;
use vstd::string::StringExecFns;

use crate::strutil::has_prefix;
use crate::strutil::join_path;
use crate::strutil::join_spec;

verus! {

/// The rendering the byte-unit library gives a byte count under decimal
/// units: a function of the count alone.
pub uninterp spec fn bytes_display_of(size: u64) -> Seq<char>;

/// Relies on byte_unit::Byte::from_u64 and get_appropriate_unit with
/// decimal units: renders a byte count with two decimals.
#[verifier::external_body]
fn format_bytes_nonzero(size: u64) -> (r: String)
    ensures
        r@ == bytes_display_of(size),
{
    let adjusted = byte_unit::Byte::from_u64(size).get_appropriate_unit(
        byte_unit::UnitType::Decimal,
    );
    format!("{adjusted:#.2}")
}

/// Formats a byte count for humans: zero reads "0 B", anything else is the
/// decimal-unit rendering.
pub fn format_bytes(size: u64) -> (r: String)
    ensures
        size == 0 ==> r@ == "0 B"@,
        size != 0 ==> r@ == bytes_display_of(size),
{
    if size == 0 {
        "0 B".to_owned()
    } else {
        format_bytes_nonzero(size)
    }
}

/// A path shown to the user: the home directory prefix replaced by `~`.
pub open spec fn display_path_spec(path: Seq<char>, home: Option<String>) -> Seq<char> {
    match home {
        Option::Some(h) => {
            if path == h@ {
                "~"@
            } else if h@.len() < path.len() && h@.is_prefix_of(path) && path[h@.len() as int]
                == '/' {
                "~"@ + path.skip(h@.len() as int)
            } else {
                path
            }
        },
        Option::None => path,
    }
}

pub fn display_path(path: &str, home: &Option<String>) -> (r: String)
    ensures
        r@ == display_path_spec(path@, *home),
{
    let h = match home {
        Some(h) => h,
        None => {
            return path.to_owned();
        },
    };
    let plen = path.unicode_len();
    let hlen = h.as_str().unicode_len();
    if plen == hlen && crate::strutil::str_eq(path, h.as_str()) {
        return "~".to_owned();
    }
    if hlen < plen && has_prefix(path, h.as_str()) && path.get_char(hlen) == '/' {
        let mut s = "~".to_owned();
        let rest = path.substring_char(hlen, plen);
        s.append(rest);
        proof {
            assert(path@.subrange(hlen as int, plen as int) =~= path@.skip(hlen as int));
        }
        return s;
    }
    proof {
        if path@ == h@ {
            assert(path@.len() == h@.len());
        }
    }
    path.to_owned()
}

pub(crate) fn clone_strings(v: &Vec<String>) -> (r: Vec<String>)
    ensures
        r@ =~= v@,
        r.deep_view() =~= v.deep_view(),
{
    let mut r: Vec<String> = Vec::new();
    let mut i: usize = 0;
    while i < v.len()
        invariant
            i <= v@.len(),
            r@ =~= v@.take(i as int),
            r.deep_view() =~= v.deep_view().take(i as int),
        decreases v@.len() - i,
    {
        let ghost pre = r.deep_view();
        r.push(v[i].clone());
        proof {
            assert(r@ =~= v@.take(i + 1));
            assert(r.deep_view() =~= pre.push(v@[i as int]@));
            assert(r.deep_view() =~= v.deep_view().take(i + 1));
        }
        i = i + 1;
    }
    proof {
        assert(v@.take(v@.len() as int) =~= v@);
    }
    r
}

/// The roots a scan works on: the current working directory in
/// current-directory-only mode; otherwise the explicit paths; otherwise the
/// desktop under the home directory, falling back to the working directory
/// when no home is known.
pub fn resolve_roots_with_current(
    explicit: &Vec<String>,
    current: bool,
    home: &Option<String>,
    cwd: &String,
) -> (v: Vec<String>)
    ensures
        current ==> v.deep_view() =~= seq![cwd@],
        !current && explicit@.len() > 0 ==> v.deep_view() =~= explicit.deep_view(),
        !current && explicit@.len() == 0 ==> (home matches Some(h) ==> v.deep_view() =~= seq![
            join_spec(h@, "Desktop"@),
        ]),
        (!current && explicit@.len() == 0 && home is None) ==> v.deep_view() =~= seq![cwd@],
{
    if current {
        let mut v: Vec<String> = Vec::new();
        let ghost pre = v.deep_view();
        v.push(cwd.clone());
        proof {
            assert(v.deep_view() =~= pre.push(cwd@));
        }
        v
    } else if explicit.len() == 0 {
        let mut v: Vec<String> = Vec::new();
        let ghost pre = v.deep_view();
        match home {
            Some(h) => {
                v.push(join_path(h.as_str(), "Desktop"));
                proof {
                    assert(v.deep_view() =~= pre.push(join_spec(h@, "Desktop"@)));
                }
            },
            None => {
                v.push(cwd.clone());
                proof {
                    assert(v.deep_view() =~= pre.push(cwd@));
                }
            },
        }
        v
    } else {
        clone_strings(explicit)
    }
}

/// The scan roots without a current-directory mode.
pub fn resolve_roots(explicit: &Vec<String>, home: &Option<String>, cwd: &String) -> (v: Vec<
    String,
>)
    ensures
        explicit@.len() > 0 ==> v.deep_view() =~= explicit.deep_view(),
        explicit@.len() == 0 ==> (home matches Some(h) ==> v.deep_view() =~= seq![
            join_spec(h@, "Desktop"@),
        ]),
        (explicit@.len() == 0 && home is None) ==> v.deep_view() =~= seq![cwd@],
{
    resolve_roots_with_current(explicit, false, home, cwd)
}

} // verus!
