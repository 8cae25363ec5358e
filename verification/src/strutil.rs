//! Verified string helpers: comparison, case folding, path joining, and
//! decimal formatting and parsing.

use vstd::prelude::*;
use vstd::string::StrSliceExecFns;
use vstd::string::StringExecFns;

verus! {

/// Character-for-character string equality.
pub fn str_eq(a: &str, b: &str) -> (r: bool)
    ensures
        r == (a@ == b@),
{
    let alen = a.unicode_len();
    let blen = b.unicode_len();
    if alen != blen {
        return false;
    }
    let mut i: usize = 0;
    while i < alen
        invariant
            alen == a@.len(),
            alen == b@.len(),
            i <= alen,
            forall|j: int| 0 <= j < i ==> a@[j] == b@[j],
        decreases alen - i,
    {
        let ca = a.get_char(i);
        let cb = b.get_char(i);
        if ca != cb {
            return false;
        }
        i = i + 1;
    }
    proof {
        assert(a@ =~= b@);
    }
    true
}

/// ASCII lower-casing of one character; other characters are unchanged.
pub open spec fn lower_char_spec(c: char) -> char {
    match c {
        'A' => 'a',
        'B' => 'b',
        'C' => 'c',
        'D' => 'd',
        'E' => 'e',
        'F' => 'f',
        'G' => 'g',
        'H' => 'h',
        'I' => 'i',
        'J' => 'j',
        'K' => 'k',
        'L' => 'l',
        'M' => 'm',
        'N' => 'n',
        'O' => 'o',
        'P' => 'p',
        'Q' => 'q',
        'R' => 'r',
        'S' => 's',
        'T' => 't',
        'U' => 'u',
        'V' => 'v',
        'W' => 'w',
        'X' => 'x',
        'Y' => 'y',
        'Z' => 'z',
        _ => c,
    }
}

/// ASCII lower-casing of a whole character sequence.
pub open spec fn lower_chars(s: Seq<char>) -> Seq<char> {
    s.map_values(|c: char| lower_char_spec(c))
}

pub fn lower_char(c: char) -> (r: char)
    ensures
        r == lower_char_spec(c),
{
    match c {
        'A' => 'a',
        'B' => 'b',
        'C' => 'c',
        'D' => 'd',
        'E' => 'e',
        'F' => 'f',
        'G' => 'g',
        'H' => 'h',
        'I' => 'i',
        'J' => 'j',
        'K' => 'k',
        'L' => 'l',
        'M' => 'm',
        'N' => 'n',
        'O' => 'o',
        'P' => 'p',
        'Q' => 'q',
        'R' => 'r',
        'S' => 's',
        'T' => 't',
        'U' => 'u',
        'V' => 'v',
        'W' => 'w',
        'X' => 'x',
        'Y' => 'y',
        'Z' => 'z',
        _ => c,
    }
}

/// True exactly when the ASCII-lower-cased form of `s` equals `target`.
pub fn eq_lowered(s: &str, target: &str) -> (r: bool)
    ensures
        r == (lower_chars(s@) == target@),
{
    let slen = s.unicode_len();
    let tlen = target.unicode_len();
    if slen != tlen {
        return false;
    }
    let mut i: usize = 0;
    while i < slen
        invariant
            slen == s@.len(),
            slen == target@.len(),
            i <= slen,
            forall|j: int| 0 <= j < i ==> lower_char_spec(s@[j]) == target@[j],
        decreases slen - i,
    {
        let cs = lower_char(s.get_char(i));
        let ct = target.get_char(i);
        if cs != ct {
            proof {
                assert(lower_chars(s@)[i as int] != target@[i as int]);
            }
            return false;
        }
        i = i + 1;
    }
    proof {
        assert(lower_chars(s@) =~= target@);
    }
    true
}

/// A path joined to a child entry name with a single separator.
pub open spec fn join_spec(dir: Seq<char>, name: Seq<char>) -> Seq<char> {
    dir + "/"@ + name
}

pub fn join_path(dir: &str, name: &str) -> (r: String)
    ensures
        r@ == join_spec(dir@, name@),
{
    let mut s = dir.to_owned();
    s.append("/");
    s.append(name);
    s
}

/// True exactly when `p` is a prefix of `s`.
pub fn has_prefix(s: &str, p: &str) -> (r: bool)
    ensures
        r == p@.is_prefix_of(s@),
{
    let slen = s.unicode_len();
    let plen = p.unicode_len();
    if plen > slen {
        return false;
    }
    let mut i: usize = 0;
    while i < plen
        invariant
            slen == s@.len(),
            plen == p@.len(),
            plen <= slen,
            i <= plen,
            forall|j: int| 0 <= j < i ==> s@[j] == p@[j],
        decreases plen - i,
    {
        if s.get_char(i) != p.get_char(i) {
            proof {
                assert(s@.subrange(0, p@.len() as int)[i as int] == s@[i as int]);
            }
            return false;
        }
        i = i + 1;
    }
    proof {
        assert(p@ =~= s@.subrange(0, p@.len() as int));
    }
    true
}

/// The whitespace characters that trimming removes.
pub open spec fn is_space_char(c: char) -> bool {
    c == ' ' || c == '\t' || c == '\r' || c == '\n'
}

/// `s` without its leading whitespace.
pub open spec fn trim_front_spec(s: Seq<char>) -> Seq<char>
    decreases s.len(),
{
    if s.len() > 0 && is_space_char(s.first()) {
        trim_front_spec(s.drop_first())
    } else {
        s
    }
}

/// `s` without its trailing whitespace.
pub open spec fn trim_back_spec(s: Seq<char>) -> Seq<char>
    decreases s.len(),
{
    if s.len() > 0 && is_space_char(s.last()) {
        trim_back_spec(s.drop_last())
    } else {
        s
    }
}

/// `s` without leading and trailing whitespace.
pub open spec fn trim_spec(s: Seq<char>) -> Seq<char> {
    trim_back_spec(trim_front_spec(s))
}

/// Skipping exactly the leading whitespace is trimming the front.
proof fn lemma_trim_front_skip(s: Seq<char>, a: int)
    requires
        0 <= a <= s.len(),
        forall|j: int| 0 <= j < a ==> is_space_char(#[trigger] s[j]),
        a == s.len() || !is_space_char(s[a]),
    ensures
        trim_front_spec(s) == s.skip(a),
    decreases a,
{
    if a == 0 {
        assert(s.skip(0) =~= s);
    } else {
        assert(is_space_char(s.first()));
        lemma_trim_front_skip(s.drop_first(), a - 1);
        assert(s.drop_first().skip(a - 1) =~= s.skip(a));
    }
}

/// Taking up to exactly the trailing whitespace is trimming the back.
proof fn lemma_trim_back_take(s: Seq<char>, b: int)
    requires
        0 <= b <= s.len(),
        forall|j: int| b <= j < s.len() ==> is_space_char(#[trigger] s[j]),
        b == 0 || !is_space_char(s[b - 1]),
    ensures
        trim_back_spec(s) == s.take(b),
    decreases s.len() - b,
{
    if b == s.len() {
        assert(s.take(b) =~= s);
    } else {
        assert(is_space_char(s.last()));
        lemma_trim_back_take(s.drop_last(), b);
        assert(s.drop_last().take(b) =~= s.take(b));
    }
}

fn is_space(c: char) -> (r: bool)
    ensures
        r == is_space_char(c),
{
    c == ' ' || c == '\t' || c == '\r' || c == '\n'
}

/// Removes leading and trailing whitespace.
pub fn trim_str(s: &str) -> (r: String)
    ensures
        r@ == trim_spec(s@),
{
    let len = s.unicode_len();
    let mut a: usize = 0;
    while a < len && is_space(s.get_char(a))
        invariant
            len == s@.len(),
            a <= len,
            forall|j: int| 0 <= j < a ==> is_space_char(#[trigger] s@[j]),
        decreases len - a,
    {
        a = a + 1;
    }
    let mut b: usize = len;
    while b > a && is_space(s.get_char(b - 1))
        invariant
            len == s@.len(),
            a <= b <= len,
            forall|j: int| b <= j < len ==> is_space_char(#[trigger] s@[j]),
        decreases b,
    {
        b = b - 1;
    }
    let r = s.substring_char(a, b);
    proof {
        lemma_trim_front_skip(s@, a as int);
        if b == a {
            lemma_trim_back_take(s@.skip(a as int), 0);
        } else {
            lemma_trim_back_take(s@.skip(a as int), b - a);
        }
        assert(s@.subrange(a as int, b as int) =~= s@.skip(a as int).take(b - a));
    }
    r.to_owned()
}

/// Whether `n` is the final path component of `p`: either the whole of `p`,
/// or a suffix immediately preceded by a separator.
pub open spec fn is_component_suffix(p: Seq<char>, n: Seq<char>) -> bool {
    n == p || (n.len() < p.len() && p[p.len() - n.len() - 1] == '/' && n == p.skip(
        p.len() - n.len(),
    ))
}


/// Lexicographic order on character sequences by code point — the order of
/// Rust's own string comparison, since UTF-8 preserves code-point order.
pub open spec fn lex_le(a: Seq<char>, b: Seq<char>) -> bool
    decreases a.len(),
{
    if a.len() == 0 {
        true
    } else if b.len() == 0 {
        false
    } else if (a.first() as u32) < (b.first() as u32) {
        true
    } else if (a.first() as u32) > (b.first() as u32) {
        false
    } else {
        lex_le(a.drop_first(), b.drop_first())
    }
}

/// The order is reflexive.
pub proof fn lemma_lex_le_refl(a: Seq<char>)
    ensures
        lex_le(a, a),
    decreases a.len(),
{
    if a.len() > 0 {
        lemma_lex_le_refl(a.drop_first());
    }
}

/// The order is total.
pub proof fn lemma_lex_le_total(a: Seq<char>, b: Seq<char>)
    ensures
        lex_le(a, b) || lex_le(b, a),
    decreases a.len(),
{
    if a.len() == 0 {
        assert(lex_le(a, b));
    } else if b.len() == 0 {
        assert(lex_le(b, a));
    } else if (a.first() as u32) < (b.first() as u32) {
        assert(lex_le(a, b));
    } else if (a.first() as u32) > (b.first() as u32) {
        assert(lex_le(b, a));
    } else {
        lemma_lex_le_total(a.drop_first(), b.drop_first());
        assert(lex_le(a, b) == lex_le(a.drop_first(), b.drop_first()));
        assert(lex_le(b, a) == lex_le(b.drop_first(), a.drop_first()));
    }
}

/// The order is transitive.
pub proof fn lemma_lex_le_trans(a: Seq<char>, b: Seq<char>, c: Seq<char>)
    requires
        lex_le(a, b),
        lex_le(b, c),
    ensures
        lex_le(a, c),
    decreases a.len(),
{
    if a.len() == 0 {
        assert(lex_le(a, c));
    } else {
        assert(b.len() > 0);
        assert(c.len() > 0);
        if (a.first() as u32) < (b.first() as u32) || (b.first() as u32) < (c.first() as u32) {
            assert((a.first() as u32) < (c.first() as u32) || (a.first() as u32) == (c.first()
                as u32) && (a.first() as u32) < (b.first() as u32) || (a.first() as u32) == (
            c.first() as u32) && (b.first() as u32) < (c.first() as u32));
            assert(lex_le(a, c));
        } else {
            assert((a.first() as u32) == (b.first() as u32));
            assert((b.first() as u32) == (c.first() as u32));
            lemma_lex_le_trans(a.drop_first(), b.drop_first(), c.drop_first());
            assert(lex_le(a, c) == lex_le(a.drop_first(), c.drop_first()));
        }
    }
}

/// Sequences that agree on a prefix compare as their remainders do.
proof fn lemma_lex_le_skip(a: Seq<char>, b: Seq<char>, i: int)
    requires
        0 <= i <= a.len(),
        i <= b.len(),
        forall|j: int| 0 <= j < i ==> a[j] == b[j],
    ensures
        lex_le(a, b) == lex_le(a.skip(i), b.skip(i)),
    decreases i,
{
    if i > 0 {
        lemma_lex_le_skip(a.drop_first(), b.drop_first(), i - 1);
        assert(a.drop_first().skip(i - 1) =~= a.skip(i));
        assert(b.drop_first().skip(i - 1) =~= b.skip(i));
    } else {
        assert(a.skip(0) =~= a);
        assert(b.skip(0) =~= b);
    }
}

/// Whether `a` reads at or before `b` in lexicographic order.
pub fn str_le(a: &str, b: &str) -> (r: bool)
    ensures
        r == lex_le(a@, b@),
{
    let alen = a.unicode_len();
    let blen = b.unicode_len();
    let mut i: usize = 0;
    while i < alen && i < blen
        invariant
            alen == a@.len(),
            blen == b@.len(),
            i <= alen,
            i <= blen,
            forall|j: int| 0 <= j < i ==> a@[j] == b@[j],
        decreases alen - i,
    {
        let ca = a.get_char(i);
        let cb = b.get_char(i);
        if ca != cb {
            proof {
                lemma_lex_le_skip(a@, b@, i as int);
                assert(a@.skip(i as int).first() == a@[i as int]);
                assert(b@.skip(i as int).first() == b@[i as int]);
            }
            return (ca as u32) < (cb as u32);
        }
        i = i + 1;
    }
    proof {
        lemma_lex_le_skip(a@, b@, i as int);
    }
    alen <= blen
}


/// Sorts strings ascending in lexicographic order, keeping exactly the
/// same strings.
pub fn sort_names_ascending(names: Vec<String>) -> (r: Vec<String>)
    ensures
        r@.len() == names@.len(),
        r@.to_multiset() == names@.to_multiset(),
        forall|i: int, j: int|
            0 <= i < j < r@.len() ==> lex_le((#[trigger] r@[i])@, (#[trigger] r@[j])@),
{
    broadcast use vstd::seq_lib::group_to_multiset_ensures;

    let ghost input = names@;
    let mut src = names;
    let mut out: Vec<String> = Vec::new();
    while src.len() > 0
        invariant
            out@.to_multiset().add(src@.to_multiset()) =~= input.to_multiset(),
            out@.len() + src@.len() == input.len(),
            forall|i: int, j: int|
                0 <= i < j < out@.len() ==> lex_le((#[trigger] out@[i])@, (#[trigger] out@[j])@),
            forall|i: int, j: int|
                0 <= i < out@.len() && 0 <= j < src@.len() ==> lex_le(
                    (#[trigger] out@[i])@,
                    (#[trigger] src@[j])@,
                ),
        decreases src@.len(),
    {
        let mut m: usize = 0;
        let mut i: usize = 1;
        proof {
            lemma_lex_le_refl(src@[0]@);
        }
        while i < src.len()
            invariant
                src@.len() > 0,
                m < i,
                i <= src@.len(),
                forall|k: int| 0 <= k < i ==> lex_le(src@[m as int]@, (#[trigger] src@[k])@),
            decreases src@.len() - i,
        {
            if !str_le(src[m].as_str(), src[i].as_str()) {
                let ghost prev = m as int;
                proof {
                    lemma_lex_le_total(src@[m as int]@, src@[i as int]@);
                }
                m = i;
                proof {
                    lemma_lex_le_refl(src@[m as int]@);
                    assert forall|k: int| 0 <= k < i implies lex_le(
                        src@[m as int]@,
                        (#[trigger] src@[k])@,
                    ) by {
                        lemma_lex_le_trans(src@[m as int]@, src@[prev]@, src@[k]@);
                    }
                }
            }
            i = i + 1;
        }
        let ghost pre_src = src@;
        let ghost pre_out = out@;
        let s = src.remove(m);
        out.push(s);
        proof {
            assert(src@ =~= pre_src.remove(m as int));
            assert(out@ =~= pre_out.push(pre_src[m as int]));
            vstd::seq_lib::to_multiset_build(pre_out, pre_src[m as int]);
            vstd::seq_lib::to_multiset_remove(pre_src, m as int);
            vstd::seq_lib::to_multiset_contains(pre_src, pre_src[m as int]);
            assert(out@.to_multiset() =~= pre_out.to_multiset().insert(pre_src[m as int]));
            assert(src@.to_multiset() =~= pre_src.to_multiset().remove(pre_src[m as int]));
            assert(pre_src.contains(pre_src[m as int]));
            assert(pre_src.to_multiset().count(pre_src[m as int]) > 0);
            assert(out@.to_multiset().add(src@.to_multiset()) =~= input.to_multiset()) by {
                broadcast use vstd::multiset::group_multiset_axioms;

            }
            assert forall|a: int, b: int|
                0 <= a < out@.len() && 0 <= b < src@.len() implies lex_le(
                (#[trigger] out@[a])@,
                (#[trigger] src@[b])@,
            ) by {
                if b < m {
                    assert(src@[b] == pre_src[b]);
                } else {
                    assert(src@[b] == pre_src[b + 1]);
                }
            }
        }
    }
    out
}

/// A path has only one separator-free final component: two separator-free
/// component suffixes of the same path are the same.
pub proof fn lemma_component_suffix_unique(q: Seq<char>, a: Seq<char>, b: Seq<char>)
    requires
        is_component_suffix(q, a),
        is_component_suffix(q, b),
        forall|j: int| 0 <= j < a.len() ==> a[j] != '/',
        forall|j: int| 0 <= j < b.len() ==> b[j] != '/',
    ensures
        a == b,
{
    if a.len() < b.len() {
        assert(q[q.len() - a.len() - 1] == '/');
        if b == q {
            assert(b[q.len() - a.len() - 1] == '/');
        } else {
            assert(b == q.skip(q.len() - b.len()));
            assert(b[(q.len() - a.len() - 1) - (q.len() - b.len())] == '/');
        }
    } else if b.len() < a.len() {
        assert(q[q.len() - b.len() - 1] == '/');
        if a == q {
            assert(a[q.len() - b.len() - 1] == '/');
        } else {
            assert(a == q.skip(q.len() - a.len()));
            assert(a[(q.len() - b.len() - 1) - (q.len() - a.len())] == '/');
        }
    } else {
        if a.len() == q.len() {
            assert(a == q);
            assert(b == q);
        } else {
            assert(a =~= b);
        }
    }
}

/// Joining a name onto a directory makes that name the final component.
pub proof fn lemma_join_is_component_suffix(d: Seq<char>, n: Seq<char>)
    ensures
        is_component_suffix(join_spec(d, n), n),
{
    reveal_strlit("/");
    let p = join_spec(d, n);
    assert(p.len() == d.len() + 1 + n.len());
    assert(p[d.len() as int] == '/');
    assert(n =~= p.skip(d.len() + 1int));
}

/// The final path component of a path: everything after its last separator.
pub open spec fn basename_spec(s: Seq<char>) -> Seq<char>
    decreases s.len(),
{
    if s.len() == 0 {
        s
    } else if s.last() == '/' {
        Seq::<char>::empty()
    } else {
        basename_spec(s.drop_last()).push(s.last())
    }
}

/// The suffix after the last separator is the final component.
proof fn lemma_basename_skip(s: Seq<char>, start: int)
    requires
        0 <= start <= s.len(),
        start == 0 || s[start - 1] == '/',
        forall|j: int| start <= j < s.len() ==> s[j] != '/',
    ensures
        basename_spec(s) == s.skip(start),
    decreases s.len(),
{
    if s.len() == start {
        assert(s.skip(start) =~= Seq::<char>::empty());
        if s.len() > 0 {
            assert(s.last() == '/');
        }
    } else {
        assert(s.last() != '/');
        lemma_basename_skip(s.drop_last(), start);
        assert(s.drop_last().skip(start).push(s.last()) =~= s.skip(start));
    }
}

/// The final component never holds a separator.
pub proof fn lemma_basename_no_slash(s: Seq<char>)
    ensures
        forall|j: int| 0 <= j < basename_spec(s).len() ==> basename_spec(s)[j] != '/',
    decreases s.len(),
{
    if s.len() > 0 && s.last() != '/' {
        lemma_basename_no_slash(s.drop_last());
        let b = basename_spec(s);
        assert forall|j: int| 0 <= j < b.len() implies b[j] != '/' by {
            if j < b.len() - 1 {
                assert(b[j] == basename_spec(s.drop_last())[j]);
            } else {
                assert(b[j] == s.last());
            }
        }
    }
}

/// The final path component of `s`: everything after the last separator.
pub fn basename(s: &str) -> (r: String)
    ensures
        r@ == basename_spec(s@),
        is_component_suffix(s@, r@),
{
    let len = s.unicode_len();
    let mut start: usize = 0;
    let mut i: usize = 0;
    while i < len
        invariant
            len == s@.len(),
            i <= len,
            start <= i,
            start == 0 || s@[start - 1] == '/',
            forall|j: int| start <= j < i ==> s@[j] != '/',
        decreases len - i,
    {
        if s.get_char(i) == '/' {
            start = i + 1;
        }
        i = i + 1;
    }
    let r = s.substring_char(start, len);
    proof {
        assert(s@.subrange(start as int, len as int) =~= s@.skip(start as int));
        lemma_basename_skip(s@, start as int);
        if start == 0 {
            assert(s@.skip(0) =~= s@);
        }
    }
    r.to_owned()
}

/// Whether one of the strings in `v` reads exactly `s`.
pub fn contains_str(v: &Vec<String>, s: &str) -> (r: bool)
    ensures
        r == v.deep_view().contains(s@),
{
    let mut i: usize = 0;
    while i < v.len()
        invariant
            i <= v@.len(),
            forall|j: int| 0 <= j < i ==> (#[trigger] v.deep_view()[j]) != s@,
        decreases v@.len() - i,
    {
        if str_eq(v[i].as_str(), s) {
            proof {
                assert(v.deep_view()[i as int] == s@);
            }
            return true;
        }
        i = i + 1;
    }
    false
}

/// The decimal digit character for a value below ten.
pub open spec fn digit_char_spec(d: int) -> char {
    if d == 0 {
        '0'
    } else if d == 1 {
        '1'
    } else if d == 2 {
        '2'
    } else if d == 3 {
        '3'
    } else if d == 4 {
        '4'
    } else if d == 5 {
        '5'
    } else if d == 6 {
        '6'
    } else if d == 7 {
        '7'
    } else if d == 8 {
        '8'
    } else {
        '9'
    }
}

/// The canonical decimal rendering of a number, without leading zeros.
pub open spec fn dec_spec(n: int) -> Seq<char>
    decreases n,
{
    if n < 10 {
        seq![digit_char_spec(n)]
    } else {
        dec_spec(n / 10).push(digit_char_spec(n % 10))
    }
}

fn digit_str(d: u64) -> (r: &'static str)
    requires
        d < 10,
    ensures
        r@ =~= seq![digit_char_spec(d as int)],
{
    proof {
        reveal_strlit("0");
        reveal_strlit("1");
        reveal_strlit("2");
        reveal_strlit("3");
        reveal_strlit("4");
        reveal_strlit("5");
        reveal_strlit("6");
        reveal_strlit("7");
        reveal_strlit("8");
        reveal_strlit("9");
    }
    match d {
        0 => "0",
        1 => "1",
        2 => "2",
        3 => "3",
        4 => "4",
        5 => "5",
        6 => "6",
        7 => "7",
        8 => "8",
        _ => "9",
    }
}

/// Renders a number in decimal.
pub fn u64_to_dec(n: u64) -> (r: String)
    ensures
        r@ == dec_spec(n as int),
    decreases n,
{
    if n < 10 {
        digit_str(n).to_owned()
    } else {
        let mut s = u64_to_dec(n / 10);
        s.append(digit_str(n % 10));
        proof {
            assert(s@ =~= dec_spec((n / 10) as int).push(digit_char_spec((n % 10) as int)));
        }
        s
    }
}

/// The numeric value of a decimal digit character, if it is one.
pub open spec fn digit_val_spec(c: char) -> Option<int> {
    match c {
        '0' => Some(0int),
        '1' => Some(1int),
        '2' => Some(2int),
        '3' => Some(3int),
        '4' => Some(4int),
        '5' => Some(5int),
        '6' => Some(6int),
        '7' => Some(7int),
        '8' => Some(8int),
        '9' => Some(9int),
        _ => None,
    }
}

fn digit_val(c: char) -> (r: Option<u64>)
    ensures
        match digit_val_spec(c) {
            Some(d) => r == Some(d as u64),
            None => r is None,
        },
{
    match c {
        '0' => Some(0u64),
        '1' => Some(1u64),
        '2' => Some(2u64),
        '3' => Some(3u64),
        '4' => Some(4u64),
        '5' => Some(5u64),
        '6' => Some(6u64),
        '7' => Some(7u64),
        '8' => Some(8u64),
        '9' => Some(9u64),
        _ => None,
    }
}

/// Whether every character of `s` is a decimal digit.
pub open spec fn all_digits(s: Seq<char>) -> bool {
    forall|i: int| 0 <= i < s.len() ==> (#[trigger] digit_val_spec(s[i])) is Some
}

/// The value of a digit character, or zero for any other character.
pub open spec fn digit_or_zero(c: char) -> int {
    match digit_val_spec(c) {
        Some(d) => d,
        None => 0,
    }
}

/// The numeric value of a digit string, most significant digit first.
pub open spec fn dec_val(s: Seq<char>) -> int
    decreases s.len(),
{
    if s.len() == 0 {
        0
    } else {
        dec_val(s.drop_last()) * 10 + digit_or_zero(s.last())
    }
}

/// Parses a non-empty, all-digit string as a number, rejecting anything else
/// and any value that does not fit in `usize`.
pub fn parse_usize(s: &str) -> (r: Option<usize>)
    ensures
        match r {
            Some(v) => s@.len() > 0 && all_digits(s@) && v == dec_val(s@) && dec_val(s@)
                <= usize::MAX,
            None => s@.len() == 0 || !all_digits(s@) || dec_val(s@) > usize::MAX,
        },
{
    let len = s.unicode_len();
    if len == 0 {
        return None;
    }
    let mut val: usize = 0;
    let mut i: usize = 0;
    while i < len
        invariant
            len == s@.len(),
            i <= len,
            all_digits(s@.take(i as int)),
            val == dec_val(s@.take(i as int)),
            dec_val(s@.take(i as int)) <= usize::MAX,
        decreases len - i,
    {
        let c = s.get_char(i);
        let d: u64 = match digit_val(c) {
            Some(d) => d,
            None => {
                proof {
                    assert(digit_val_spec(s@[i as int]) is None);
                }
                return None;
            },
        };
        let du: usize = d as usize;
        proof {
            assert(s@.take(i + 1).drop_last() =~= s@.take(i as int));
            assert(s@.take(i + 1).last() == s@[i as int]);
        }
        if val > (usize::MAX - du) / 10 {
            // The running value would exceed usize::MAX here, and appending
            // further digits can only increase it.
            assert(val * 10 + du > usize::MAX) by (nonlinear_arith)
                requires
                    val > (usize::MAX - du) / 10,
                    du < 10,
            ;
            proof {
                lemma_dec_val_prefix(s@, i + 1);
            }
            return None;
        }
        assert(val * 10 + du <= usize::MAX) by (nonlinear_arith)
            requires
                val <= (usize::MAX - du) / 10,
                du < 10,
        ;
        val = val * 10 + du;
        i = i + 1;
    }
    proof {
        assert(s@.take(len as int) =~= s@);
    }
    Some(val)
}

/// The value of a digit string is at least the value of any of its prefixes.
proof fn lemma_dec_val_prefix(s: Seq<char>, i: int)
    requires
        0 <= i <= s.len(),
    ensures
        dec_val(s.take(i)) <= dec_val(s),
    decreases s.len() - i,
{
    if i < s.len() {
        lemma_dec_val_prefix(s, i + 1);
        assert(s.take(i + 1).drop_last() =~= s.take(i));
        assert(s.take(i + 1).last() == s[i]);
        lemma_dec_val_nonneg(s.take(i));
        assert(dec_val(s.take(i)) <= dec_val(s.take(i)) * 10 + digit_or_zero(s[i]))
            by (nonlinear_arith)
            requires
                dec_val(s.take(i)) >= 0,
                digit_or_zero(s[i]) >= 0,
        ;
    } else {
        assert(s.take(i) =~= s);
    }
}

proof fn lemma_dec_val_nonneg(s: Seq<char>)
    ensures
        dec_val(s) >= 0,
    decreases s.len(),
{
    if s.len() > 0 {
        lemma_dec_val_nonneg(s.drop_last());
        assert(dec_val(s.drop_last()) * 10 >= 0) by (nonlinear_arith)
            requires
                dec_val(s.drop_last()) >= 0,
        ;
    }
}

} // verus!
