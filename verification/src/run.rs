//! Command-level decisions: which categories a run works on, how an
//! interactive selection is read, and which report items the filesystem
//! deletion branch receives. The prompting and reading themselves are I/O
//! and stay with the caller; the parsing of what the user typed is here.

use vstd::prelude::*;
use vstd::string::StrSliceExecFns;

use crate::error::AppError;
use crate::model::clone_items;
use crate::model::contains_category;
use crate::model::Category;
use crate::model::ScanItem;
use crate::model::ScanReport;
use crate::strutil::eq_lowered;
use crate::strutil::lower_chars;
use crate::strutil::trim_spec;
use crate::strutil::trim_str;

verus! {

/// Options of the scan command.
pub struct ScanOptions {
    pub categories: Vec<Category>,
    pub roots: Vec<String>,
    pub verbose: bool,
    pub list: bool,
    pub current: bool,
}

/// Options of the run (scan-and-delete) command.
pub struct RunOptions {
    pub categories: Option<Vec<Category>>,
    pub all: bool,
    pub roots: Vec<String>,
    pub verbose: bool,
    pub assume_yes: bool,
    pub current: bool,
}

/// Options of the config command.
pub struct ConfigOptions {
    pub show_path: bool,
    pub edit: bool,
    pub add_exclude: Option<String>,
}

/// The categories a command works on: an explicit list stands as given; the
/// all flag, or no list at all, selects every category.
pub fn resolve_categories(categories: Vec<Category>, all: bool) -> (r: Vec<Category>)
    ensures
        (all || categories@.len() == 0) ==> r@ =~= seq![
            Category::Xcode,
            Category::Python,
            Category::Rust,
            Category::Nodejs,
            Category::Brew,
            Category::Docker,
        ],
        !(all || categories@.len() == 0) ==> r@ =~= categories@,
{
    if all || categories.len() == 0 {
        Category::all()
    } else {
        categories
    }
}

/// The category at a canonical position.
pub open spec fn category_of_rank(i: int) -> Category {
    if i == 0 {
        Category::Xcode
    } else if i == 1 {
        Category::Python
    } else if i == 2 {
        Category::Rust
    } else if i == 3 {
        Category::Nodejs
    } else if i == 4 {
        Category::Brew
    } else {
        Category::Docker
    }
}

/// What one selection token denotes: an all-digit token is a one-based menu
/// index, valid only between 1 and 6; anything else is read as a category
/// name.
pub open spec fn selection_token_spec(t: Seq<char>) -> Option<Category> {
    if t.len() > 0 && crate::strutil::all_digits(t) && crate::strutil::dec_val(t) <= usize::MAX {
        if 1 <= crate::strutil::dec_val(t) && crate::strutil::dec_val(t) <= 6 {
            Some(category_of_rank(crate::strutil::dec_val(t) - 1))
        } else {
            None
        }
    } else {
        Category::category_of_name(t)
    }
}

/// One token of an interactive selection: a one-based menu index or a
/// category name.
fn parse_selection_token(token: &str) -> (r: Option<Category>)
    ensures
        r == selection_token_spec(token@),
{
    match crate::strutil::parse_usize(token) {
        Some(index) => {
            if 1 <= index && index <= 6 {
                let all = Category::all();
                Some(all[index - 1])
            } else {
                None
            }
        },
        None => Category::from_name(token),
    }
}

/// What one raw token does to the selection so far: an empty token changes
/// nothing; a token denoting a category adds it unless already selected;
/// any other token is the (trimmed) offender.
pub open spec fn apply_selection_token(token_raw: Seq<char>, acc: Seq<Category>) -> Result<
    Seq<Category>,
    Seq<char>,
> {
    let t = trim_spec(token_raw);
    if t.len() == 0 {
        Ok(acc)
    } else {
        match selection_token_spec(t) {
            Some(c) => Ok(
                if acc.contains(c) {
                    acc
                } else {
                    acc.push(c)
                },
            ),
            None => Err(t),
        }
    }
}

/// The selection denoted by comma-separated token text, read left to right:
/// `token` is the piece accumulated since the last comma, `acc` the
/// categories chosen so far; the first unknown token aborts the read.
pub open spec fn selection_fold(s: Seq<char>, token: Seq<char>, acc: Seq<Category>) -> Result<
    Seq<Category>,
    Seq<char>,
>
    decreases s.len(),
{
    if s.len() == 0 {
        apply_selection_token(token, acc)
    } else if s.first() == ',' {
        match apply_selection_token(token, acc) {
            Ok(acc2) => selection_fold(s.drop_first(), Seq::<char>::empty(), acc2),
            Err(t) => Err(t),
        }
    } else {
        selection_fold(s.drop_first(), token.push(s.first()), acc)
    }
}

/// Reads an interactive category selection: comma-separated names or
/// one-based menu indices, in any amount of whitespace. An empty line is a
/// cancellation, `all` in any case selects everything, and any other input
/// yields exactly the token-wise read `selection_fold` describes: the
/// categories in first-mention order without repeats, a cancellation when
/// no token selects anything, and the first unknown token as an
/// invalid-category error.
pub fn parse_selection(input: &str) -> (r: Result<Vec<Category>, AppError>)
    ensures
        trim_spec(input@).len() == 0 ==> r matches Err(AppError::Cancelled),
        trim_spec(input@).len() > 0 && lower_chars(trim_spec(input@)) != "all"@ ==> (match
            selection_fold(trim_spec(input@), Seq::<char>::empty(), Seq::<Category>::empty()) {
            Ok(sel) => if sel.len() == 0 {
                r matches Err(AppError::Cancelled)
            } else {
                r matches Ok(v) && v@ == sel
            },
            Err(t) => r matches Err(e) && e matches AppError::InvalidCategory(tok) && tok@ == t,
        }),
        (trim_spec(input@).len() > 0 && lower_chars(trim_spec(input@)) == "all"@) ==> (r matches
            Ok(v) && v@ =~= seq![
            Category::Xcode,
            Category::Python,
            Category::Rust,
            Category::Nodejs,
            Category::Brew,
            Category::Docker,
        ]),
        r matches Ok(v) ==> v@.len() > 0 && (forall|i: int, j: int|
            0 <= i < j < v@.len() ==> v@[i] != v@[j]),
        r matches Err(e) ==> (e matches AppError::Cancelled || e matches AppError::InvalidCategory(
            _,
        )),
{
    let trimmed = trim_str(input);
    if trimmed.as_str().unicode_len() == 0 {
        return Err(AppError::Cancelled);
    }
    if eq_lowered(trimmed.as_str(), "all") {
        return Ok(Category::all());
    }
    let mut selected: Vec<Category> = Vec::new();
    let len = trimmed.as_str().unicode_len();
    let ghost s = trimmed@;
    let ghost full = selection_fold(s, Seq::<char>::empty(), Seq::<Category>::empty());
    let mut start: usize = 0;
    let mut i: usize = 0;
    proof {
        assert(s.skip(0) =~= s);
        assert(s.subrange(0, 0) =~= Seq::<char>::empty());
    }
    while i < len
        invariant
            trimmed@ == trim_spec(input@),
            s == trimmed@,
            full == selection_fold(s, Seq::<char>::empty(), Seq::<Category>::empty()),
            trimmed@.len() > 0,
            lower_chars(trimmed@) != "all"@,
            len == trimmed@.len(),
            start <= i,
            i <= len,
            forall|a: int, b: int| 0 <= a < b < selected@.len() ==> selected@[a] != selected@[b],
            selection_fold(s.skip(i as int), s.subrange(start as int, i as int), selected@)
                == full,
        decreases len - i,
    {
        proof {
            assert(s.skip(i as int).len() > 0);
            assert(s.skip(i as int).first() == s[i as int]);
            assert(s.skip(i as int).drop_first() =~= s.skip(i + 1));
        }
        if trimmed.as_str().get_char(i) == ',' {
            let token_raw = trimmed.as_str().substring_char(start, i);
            let ghost pre_acc = selected@;
            match add_selection_token(&mut selected, token_raw) {
                Ok(()) => {
                    proof {
                        assert(token_raw@ == s.subrange(start as int, i as int));
                        assert(s.subrange(i + 1, i + 1) =~= Seq::<char>::empty());
                    }
                },
                Err(e) => {
                    proof {
                        assert(token_raw@ == s.subrange(start as int, i as int));
                        assert(full == selection_fold(
                            s.skip(i as int),
                            s.subrange(start as int, i as int),
                            pre_acc,
                        ));
                    }
                    return Err(e);
                },
            }
            start = i + 1;
        } else {
            proof {
                assert(s.subrange(start as int, i as int).push(s[i as int]) =~= s.subrange(
                    start as int,
                    i + 1,
                ));
            }
        }
        i = i + 1;
    }
    proof {
        assert(s.skip(len as int) =~= Seq::<char>::empty());
    }
    let last_raw = trimmed.as_str().substring_char(start, len);
    let ghost pre_acc = selected@;
    match add_selection_token(&mut selected, last_raw) {
        Ok(()) => {
            proof {
                assert(last_raw@ == s.subrange(start as int, len as int));
            }
        },
        Err(e) => {
            proof {
                assert(last_raw@ == s.subrange(start as int, len as int));
            }
            return Err(e);
        },
    }
    if selected.len() == 0 {
        return Err(AppError::Cancelled);
    }
    Ok(selected)
}

/// Adds one selection token to the running selection: an empty token is
/// skipped, a token denoting a category adds it unless already selected,
/// and any other token is an invalid-category error. The selection stays
/// free of repeats.
fn add_selection_token(selected: &mut Vec<Category>, token_raw: &str) -> (r: Result<(), AppError>)
    requires
        forall|a: int, b: int|
            0 <= a < b < old(selected)@.len() ==> old(selected)@[a] != old(selected)@[b],
    ensures
        forall|a: int, b: int|
            0 <= a < b < final(selected)@.len() ==> final(selected)@[a] != final(selected)@[b],
        r matches Err(e) ==> e matches AppError::InvalidCategory(_),
        match apply_selection_token(token_raw@, old(selected)@) {
            Ok(acc) => r is Ok && final(selected)@ == acc,
            Err(t) => final(selected)@ == old(selected)@ && (r matches Err(e) && e matches
                AppError::InvalidCategory(tok) && tok@ == t),
        },
{
    let token = trim_str(token_raw);
    if token.as_str().unicode_len() > 0 {
        match parse_selection_token(token.as_str()) {
            Some(category) => {
                if !contains_category(selected, category) {
                    selected.push(category);
                }
            },
            None => {
                return Err(AppError::InvalidCategory(token));
            },
        }
    }
    Ok(())
}

/// Whether a confirmation answer means yes: `y` or `yes`, in any case,
/// ignoring surrounding whitespace.
pub fn parse_confirmation(input: &str) -> (r: bool)
    ensures
        r == (lower_chars(trim_spec(input@)) == "y"@ || lower_chars(trim_spec(input@)) == "yes"@),
{
    let trimmed = trim_str(input);
    eq_lowered(trimmed.as_str(), "y") || eq_lowered(trimmed.as_str(), "yes")
}

/// The items the filesystem deletion branch receives: every item of the
/// report except the container-engine aggregate, which is cleaned through
/// the engine's own prune command instead.
pub fn filesystem_items(report: &ScanReport) -> (items: Vec<ScanItem>)
    ensures
        items@ =~= report.items_of(Category::Xcode) + report.items_of(Category::Python)
            + report.items_of(Category::Rust) + report.items_of(Category::Nodejs)
            + report.items_of(Category::Brew),
{
    let mut items: Vec<ScanItem> = Vec::new();
    match &report.xcode {
        Some(rep) => {
            let mut part = clone_items(&rep.items);
            items.append(&mut part);
        },
        None => {},
    }
    match &report.python {
        Some(rep) => {
            let mut part = clone_items(&rep.items);
            items.append(&mut part);
        },
        None => {},
    }
    match &report.rust {
        Some(rep) => {
            let mut part = clone_items(&rep.items);
            items.append(&mut part);
        },
        None => {},
    }
    match &report.nodejs {
        Some(rep) => {
            let mut part = clone_items(&rep.items);
            items.append(&mut part);
        },
        None => {},
    }
    match &report.brew {
        Some(rep) => {
            let mut part = clone_items(&rep.items);
            items.append(&mut part);
        },
        None => {},
    }
    proof {
        if report.xcode is None {
            assert(report.items_of(Category::Xcode) =~= Seq::<ScanItem>::empty());
        }
        if report.python is None {
            assert(report.items_of(Category::Python) =~= Seq::<ScanItem>::empty());
        }
        if report.rust is None {
            assert(report.items_of(Category::Rust) =~= Seq::<ScanItem>::empty());
        }
        if report.nodejs is None {
            assert(report.items_of(Category::Nodejs) =~= Seq::<ScanItem>::empty());
        }
        if report.brew is None {
            assert(report.items_of(Category::Brew) =~= Seq::<ScanItem>::empty());
        }
    }
    items
}

} // verus!
