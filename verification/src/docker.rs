//! The container-engine cache category.
//!
//! The engine itself is an optional out-of-process collaborator: probing it
//! and running its commands is process I/O and stays with the caller. This
//! module holds the verified logic around it: parsing the structured size
//! query output, the aggregate scan item, the fixed cleanup command, and the
//! policy that absence of the tool is a distinguishable, non-fatal skip.

use vstd::prelude::*;
use vstd::string::StrSliceExecFns;

use crate::model::sat_add;
use crate::model::Category;
use crate::model::ItemKind;
use crate::model::ScanItem;

verus! {

/// The pseudo-path under which the aggregate reclaimable size is reported.
pub fn docker_scan_label() -> (r: &'static str)
    ensures
        r@ == "docker:prune"@,
{
    "docker:prune"
}

/// The "Reclaimable" string field of one JSON object line, when the line is
/// a JSON object carrying one; a function of the line text alone.
pub uninterp spec fn json_reclaimable_of(line: Seq<char>) -> Option<Seq<char>>;

/// Relies on serde_json::from_str and Value::get / Value::as_str: parses one
/// line as JSON and extracts its "Reclaimable" string field.
#[verifier::external_body]
fn reclaimable_field(line: &str) -> (r: Option<String>)
    ensures
        match (r, json_reclaimable_of(line@)) {
            (Some(s), Some(t)) => s@ == t,
            (None, None) => true,
            _ => false,
        },
{
    let v: serde_json::Value = match serde_json::from_str(line) {
        Ok(v) => v,
        Err(_) => return None,
    };
    match v.get("Reclaimable").and_then(|x| x.as_str()) {
        Some(s) => Some(s.to_string()),
        None => None,
    }
}

/// The byte count denoted by a size expression such as "1.5GB", if it is
/// one; a function of the text alone.
pub uninterp spec fn byte_count_of(s: Seq<char>) -> Option<u64>;

/// Relies on byte_unit::Byte's string parsing: the denoted byte count.
#[verifier::external_body]
fn parse_byte_size(s: &str) -> (r: Option<u64>)
    ensures
        r == byte_count_of(s@),
{
    match s.parse::<byte_unit::Byte>() {
        Ok(b) => Some(b.as_u64()),
        Err(_) => None,
    }
}

/// Whether `i` is the position of the first space in `s`.
pub open spec fn first_space_at(s: Seq<char>, i: int) -> bool {
    0 <= i < s.len() && s[i] == ' ' && (forall|j: int| 0 <= j < i ==> s[j] != ' ')
}

/// The prefix of `s` up to (excluding) its first space; all of `s` when it
/// has none.
pub open spec fn first_token_spec(s: Seq<char>) -> Seq<char> {
    if exists|i: int| first_space_at(s, i) {
        s.take(choose|i: int| first_space_at(s, i))
    } else {
        s
    }
}

/// Two positions of the first space are the same position.
proof fn lemma_first_space_unique(s: Seq<char>, a: int, b: int)
    requires
        first_space_at(s, a),
        first_space_at(s, b),
    ensures
        a == b,
{
    if a < b {
        assert(s[a] != ' ');
    }
    if b < a {
        assert(s[b] != ' ');
    }
}

pub fn first_token(s: &str) -> (r: String)
    ensures
        r@ == first_token_spec(s@),
{
    let len = s.unicode_len();
    let mut i: usize = 0;
    while i < len
        invariant
            len == s@.len(),
            i <= len,
            forall|j: int| 0 <= j < i ==> s@[j] != ' ',
        decreases len - i,
    {
        if s.get_char(i) == ' ' {
            let r = s.substring_char(0, i);
            proof {
                assert(first_space_at(s@, i as int));
                let c = choose|k: int| first_space_at(s@, k);
                lemma_first_space_unique(s@, i as int, c);
                assert(s@.subrange(0, i as int) =~= s@.take(i as int));
            }
            return r.to_owned();
        }
        i = i + 1;
    }
    proof {
        assert(forall|k: int| !first_space_at(s@, k));
    }
    s.to_owned()
}

/// The bytes one size-query output line contributes: the parsed value of the
/// leading token of its "Reclaimable" field, and nothing for a line that
/// does not parse.
pub open spec fn line_value_spec(line: Seq<char>) -> u64 {
    match json_reclaimable_of(line) {
        Option::Some(s) => match byte_count_of(first_token_spec(s)) {
            Option::Some(n) => n,
            Option::None => 0u64,
        },
        Option::None => 0u64,
    }
}

pub fn parse_df_line(line: &str) -> (r: u64)
    ensures
        r == line_value_spec(line@),
{
    match reclaimable_field(line) {
        Some(s) => {
            let tok = first_token(s.as_str());
            match parse_byte_size(tok.as_str()) {
                Some(n) => n,
                None => 0,
            }
        },
        None => 0,
    }
}

/// Saturating total of the reclaimable bytes over all output lines.
pub open spec fn df_total_spec(lines: Seq<String>) -> u64
    decreases lines.len(),
{
    if lines.len() == 0 {
        0u64
    } else {
        sat_add(df_total_spec(lines.drop_last()), line_value_spec(lines.last()@))
    }
}

/// Sums the reclaimable bytes reported by the size-query output, skipping
/// every unparseable line, saturating at `u64::MAX`.
pub fn docker_reclaimable_total(lines: &Vec<String>) -> (r: u64)
    ensures
        r == df_total_spec(lines@),
{
    let mut total: u64 = 0;
    let mut i: usize = 0;
    while i < lines.len()
        invariant
            i <= lines@.len(),
            total == df_total_spec(lines@.take(i as int)),
        decreases lines@.len() - i,
    {
        proof {
            assert(lines@.take(i + 1).drop_last() =~= lines@.take(i as int));
            assert(lines@.take(i + 1).last() == lines@[i as int]);
        }
        let v = parse_df_line(lines[i].as_str());
        total = if total <= u64::MAX - v {
            total + v
        } else {
            u64::MAX
        };
        i = i + 1;
    }
    proof {
        assert(lines@.take(lines@.len() as int) =~= lines@);
    }
    total
}

/// The container-engine discovery result: nothing when the tool is
/// unavailable or nothing is reclaimable, else exactly one aggregate
/// directory item under the fixed pseudo-path, already measured.
pub fn docker_scan_items(available: bool, lines: &Vec<String>) -> (items: Vec<ScanItem>)
    ensures
        !available ==> items@.len() == 0,
        available && df_total_spec(lines@) == 0 ==> items@.len() == 0,
        available && df_total_spec(lines@) != 0 ==> items@.len() == 1 && {
            let it = items@[0];
            &&& it.category == Category::Docker
            &&& it.path@ == "docker:prune"@
            &&& it.size == Option::Some(df_total_spec(lines@))
            &&& it.kind == ItemKind::Directory
        },
{
    let mut items: Vec<ScanItem> = Vec::new();
    if !available {
        return items;
    }
    let total = docker_reclaimable_total(lines);
    if total == 0 {
        return items;
    }
    items.push(
        ScanItem {
            category: Category::Docker,
            path: docker_scan_label().to_owned(),
            size: Some(total),
            kind: ItemKind::Directory,
        },
    );
    items
}

/// How a cleanup attempt ended. An unavailable tool is a distinguishable,
/// non-fatal skip, never folded into a command failure.
#[derive(Debug, Clone, Copy, PartialEq, Eq, Structural)]
pub enum DockerCleanupStatus {
    /// Every prune step ran and succeeded.
    Completed,
    /// The tool is not installed or not responding; nothing was attempted.
    SkippedUnavailable,
    /// A prune step ran and failed; fatal to the cleanup branch.
    Failed,
}

/// The fixed prune command to run when the tool is available, and nothing
/// to run when it is not.
pub fn docker_cleanup_args(available: bool) -> (r: Option<Vec<String>>)
    ensures
        !available ==> r is None,
        available ==> (r matches Some(args) && args.deep_view() =~= seq![
            "system"@,
            "prune"@,
            "-a"@,
            "-f"@,
            "--volumes"@,
        ]),
{
    if !available {
        return None;
    }
    let mut args: Vec<String> = Vec::new();
    let ghost g0 = args.deep_view();
    args.push("system".to_owned());
    proof {
        assert(args.deep_view() =~= g0.push("system"@));
    }
    let ghost g1 = args.deep_view();
    args.push("prune".to_owned());
    proof {
        assert(args.deep_view() =~= g1.push("prune"@));
    }
    let ghost g2 = args.deep_view();
    args.push("-a".to_owned());
    proof {
        assert(args.deep_view() =~= g2.push("-a"@));
    }
    let ghost g3 = args.deep_view();
    args.push("-f".to_owned());
    proof {
        assert(args.deep_view() =~= g3.push("-f"@));
    }
    let ghost g4 = args.deep_view();
    args.push("--volumes".to_owned());
    proof {
        assert(args.deep_view() =~= g4.push("--volumes"@));
    }
    Some(args)
}

/// The cleanup policy: absence of the tool is a skip, a failing step is
/// fatal, and success is reported only when the tool ran and succeeded.
pub fn docker_cleanup_status(available: bool, command_succeeded: bool) -> (r: DockerCleanupStatus)
    ensures
        !available ==> r == DockerCleanupStatus::SkippedUnavailable,
        available && command_succeeded ==> r == DockerCleanupStatus::Completed,
        available && !command_succeeded ==> r == DockerCleanupStatus::Failed,
{
    if !available {
        DockerCleanupStatus::SkippedUnavailable
    } else if command_succeeded {
        DockerCleanupStatus::Completed
    } else {
        DockerCleanupStatus::Failed
    }
}

/// The cleanup targets the preview names when the tool is available.
pub fn list_targets_docker(available: bool) -> (labels: Vec<String>)
    ensures
        !available ==> labels@.len() == 0,
        available ==> labels.deep_view() =~= seq![
            "Unused images"@,
            "Stopped containers"@,
            "Unused volumes"@,
            "Unused networks"@,
            "Build cache"@,
        ],
{
    let mut labels: Vec<String> = Vec::new();
    if !available {
        return labels;
    }
    let ghost g0 = labels.deep_view();
    labels.push("Unused images".to_owned());
    proof {
        assert(labels.deep_view() =~= g0.push("Unused images"@));
    }
    let ghost g1 = labels.deep_view();
    labels.push("Stopped containers".to_owned());
    proof {
        assert(labels.deep_view() =~= g1.push("Stopped containers"@));
    }
    let ghost g2 = labels.deep_view();
    labels.push("Unused volumes".to_owned());
    proof {
        assert(labels.deep_view() =~= g2.push("Unused volumes"@));
    }
    let ghost g3 = labels.deep_view();
    labels.push("Unused networks".to_owned());
    proof {
        assert(labels.deep_view() =~= g3.push("Unused networks"@));
    }
    let ghost g4 = labels.deep_view();
    labels.push("Build cache".to_owned());
    proof {
        assert(labels.deep_view() =~= g4.push("Build cache"@));
    }
    labels
}

} // verus!
