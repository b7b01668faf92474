//! How the local share service names a project filter in a request: `All`,
//! `None`, or a project's id in hexadecimal.

use vstd::prelude::*;

use crate::database::database::Db;
use crate::database::models::{ObjectId, ProjectEntry, ProjectEntryView};
use crate::database::state::{DbView, project_index};
use crate::text::same_text;

verus! {

/// The lowercase hexadecimal digit for `n` (0 to 15).
pub open spec fn hex_digit(n: int) -> char {
    seq!['0', '1', '2', '3', '4', '5', '6', '7', '8', '9', 'a', 'b', 'c', 'd', 'e', 'f'][n]
}

/// The value of a hexadecimal digit, either case; `None` for another character.
pub open spec fn hex_value(c: char) -> Option<int> {
    if '0' <= c && c <= '9' {
        Some(c as int - '0' as int)
    } else if 'a' <= c && c <= 'f' {
        Some(c as int - 'a' as int + 10)
    } else if 'A' <= c && c <= 'F' {
        Some(c as int - 'A' as int + 10)
    } else {
        None
    }
}

/// `16` to the power `k`.
pub open spec fn pow16(k: nat) -> int
    decreases k,
{
    if k == 0 { 1 } else { 16 * pow16((k - 1) as nat) }
}

/// The last `k` hexadecimal digits of `v`, most significant first.
pub open spec fn hex_text(v: int, k: nat) -> Seq<char>
    decreases k,
{
    if k == 0 { Seq::empty() } else { hex_text(v / 16, (k - 1) as nat).push(hex_digit(v % 16)) }
}

/// Every character of `s` is a hexadecimal digit.
pub open spec fn all_hex(s: Seq<char>) -> bool {
    forall|i: int| 0 <= i < s.len() ==> #[trigger] hex_value(s[i]) is Some
}

/// The number the hexadecimal digits `s` spell.
pub open spec fn hex_num(s: Seq<char>) -> int
    decreases s.len(),
{
    if s.len() == 0 {
        0
    } else {
        hex_num(s.drop_last()) * 16 + match hex_value(s.last()) {
            Some(v) => v,
            None => 0,
        }
    }
}

/// The 24 lowercase hexadecimal digits of `id`'s twelve bytes (its time
/// big-endian, then the rest big-endian), as `bson::oid::ObjectId::to_hex`
/// writes them.
pub open spec fn object_id_text(id: ObjectId) -> Seq<char> {
    hex_text(id.time as int, 8) + hex_text(id.rest as int, 16)
}

/// The id that `bson::oid::ObjectId::parse_str` reads from `s`: exactly 24
/// hexadecimal digits (either case) spell the twelve bytes; anything else
/// reads as none.
pub open spec fn parsed_object_id(s: Seq<char>) -> Option<ObjectId> {
    if s.len() == 24 && all_hex(s) {
        Some(ObjectId { time: hex_num(s.subrange(0, 8)) as u32, rest: hex_num(s.subrange(8, 24)) as u64 })
    } else {
        None
    }
}

proof fn lemma_hex_digit(n: int)
    requires
        0 <= n < 16,
    ensures
        hex_value(hex_digit(n)) == Some(n),
{
}

proof fn lemma_hex_text(v: int, k: nat)
    requires
        0 <= v < pow16(k),
    ensures
        hex_text(v, k).len() == k,
        all_hex(hex_text(v, k)),
        hex_num(hex_text(v, k)) == v,
    decreases k,
{
    if k > 0 {
        let p = pow16((k - 1) as nat);
        assert(v / 16 < p && 0 <= v / 16 && (v / 16) * 16 + v % 16 == v && 0 <= v % 16 < 16) by (nonlinear_arith)
            requires
                0 <= v < 16 * p,
        ;
        lemma_hex_text(v / 16, (k - 1) as nat);
        lemma_hex_digit(v % 16);
        let t = hex_text(v, k);
        assert(t.drop_last() =~= hex_text(v / 16, (k - 1) as nat));
        assert forall|i: int| 0 <= i < t.len() implies #[trigger] hex_value(t[i]) is Some by {
            if i < t.len() - 1 {
                assert(t[i] == hex_text(v / 16, (k - 1) as nat)[i]);
            }
        }
    }
}

/// An id's text reads back as the id.
pub proof fn lemma_id_text_parses(id: ObjectId)
    ensures
        object_id_text(id).len() == 24,
        parsed_object_id(object_id_text(id)) == Some(id),
{
    reveal_with_fuel(pow16, 17);
    assert(pow16(8) == 0x1_0000_0000);
    assert(pow16(16) == 0x1_0000_0000_0000_0000);
    let a = hex_text(id.time as int, 8);
    let b = hex_text(id.rest as int, 16);
    lemma_hex_text(id.time as int, 8);
    lemma_hex_text(id.rest as int, 16);
    let s = a + b;
    assert(s.subrange(0, 8) =~= a);
    assert(s.subrange(8, 24) =~= b);
    assert forall|i: int| 0 <= i < s.len() implies #[trigger] hex_value(s[i]) is Some by {
        if i < 8 {
            assert(s[i] == a[i]);
        } else {
            assert(s[i] == b[i - 8]);
        }
    }
}

/// `bson::oid::ObjectId::to_hex` on the id with `id`'s bytes (its time
/// big-endian, then the rest big-endian): the source hex-encodes the twelve
/// bytes in lowercase.
#[verifier::external_body]
fn id_text(id: ObjectId) -> (s: String)
    ensures
        s@ == object_id_text(id),
{
    let t = id.time.to_be_bytes();
    let r = id.rest.to_be_bytes();
    let bytes = [t[0], t[1], t[2], t[3], r[0], r[1], r[2], r[3], r[4], r[5], r[6], r[7]];
    bson::oid::ObjectId::from_bytes(bytes).to_hex()
}

/// `bson::oid::ObjectId::parse_str`: the source hex-decodes the string's
/// bytes (digits of either case, an even number of them) and wants twelve
/// bytes; the id's time and rest are read big-endian from them.
#[verifier::external_body]
fn parse_id(s: &str) -> (r: Option<ObjectId>)
    ensures
        r == parsed_object_id(s@),
{
    let b = bson::oid::ObjectId::parse_str(s).ok()?.bytes();
    Some(ObjectId {
        time: u32::from_be_bytes([b[0], b[1], b[2], b[3]]),
        rest: u64::from_be_bytes([b[4], b[5], b[6], b[7], b[8], b[9], b[10], b[11]]),
    })
}

/// Why a requested project filter cannot be served.
#[derive(Clone, Copy, Debug, PartialEq, Eq, Structural)]
pub enum ShareError {
    /// An id that no project has.
    ProjectNotFound,
    /// Neither an id nor `All` / `None`.
    UnknownParameter,
}

/// The request parameter naming filter `e`.
pub open spec fn entry_param(e: ProjectEntryView) -> Seq<char> {
    match e {
        ProjectEntryView::All => "All"@,
        ProjectEntryView::NoProject => "None"@,
        ProjectEntryView::Project(p) => object_id_text(p.id),
    }
}

/// The filter a request parameter names in store `s`, given the id `parsed`
/// read from it: a listed project's id names that project, an unlisted id
/// none; otherwise `All` and `None` name themselves.
pub open spec fn resolved(s: DbView, param: Seq<char>, parsed: Option<ObjectId>) -> Result<ProjectEntryView, ShareError> {
    match parsed {
        Some(id) => if project_index(s.projects, id) >= 0 {
            Ok(ProjectEntryView::Project(s.projects[project_index(s.projects, id)]))
        } else {
            Err(ShareError::ProjectNotFound)
        },
        None => if param == "All"@ {
            Ok(ProjectEntryView::All)
        } else if param == "None"@ {
            Ok(ProjectEntryView::NoProject)
        } else {
            Err(ShareError::UnknownParameter)
        },
    }
}

/// The request parameter naming the filter `entry`.
pub fn project_param(entry: &ProjectEntry) -> (s: String)
    ensures
        s@ == entry_param(entry@),
{
    match entry {
        ProjectEntry::All => "All".to_string(),
        ProjectEntry::NoProject => "None".to_string(),
        ProjectEntry::Project(p) => id_text(p.id),
    }
}

/// The filter a request parameter names, given the id read from it (see
/// `resolved`).
pub fn resolve_parsed(db: &Db, param: &str, parsed: Option<ObjectId>) -> (r: Result<ProjectEntry, ShareError>)
    ensures
        match resolved(db@, param@, parsed) {
            Ok(e) => r matches Ok(x) && x@ == e,
            Err(err) => r == Err::<ProjectEntry, ShareError>(err),
        },
{
    match parsed {
        Some(id) => match db.one_project(id) {
            Ok(Some(p)) => Ok(p),
            _ => Err(ShareError::ProjectNotFound),
        },
        None => {
            proof {
                reveal_strlit("All");
                reveal_strlit("None");
            }
            if same_text(param, "All") {
                Ok(ProjectEntry::All)
            } else if same_text(param, "None") {
                Ok(ProjectEntry::NoProject)
            } else {
                Err(ShareError::UnknownParameter)
            }
        },
    }
}

/// The filter a request parameter names in the store: a project's id, or
/// `All` / `None`.
pub fn resolve_project(db: &Db, param: &str) -> (r: Result<ProjectEntry, ShareError>)
    ensures
        match resolved(db@, param@, parsed_object_id(param@)) {
            Ok(e) => r matches Ok(x) && x@ == e,
            Err(err) => r == Err::<ProjectEntry, ShareError>(err),
        },
{
    let parsed = parse_id(param);
    resolve_parsed(db, param, parsed)
}

/// A filter read back from the parameter that names it is the same filter:
/// `All` and `None` always, a project as long as the store lists it.
pub proof fn law_param_roundtrip(s: DbView, e: ProjectEntryView)
    requires
        e matches ProjectEntryView::Project(p) ==> project_index(s.projects, p.id) >= 0
            && s.projects[project_index(s.projects, p.id)] == p,
    ensures
        resolved(s, entry_param(e), parsed_object_id(entry_param(e))) == Ok::<ProjectEntryView, ShareError>(e),
{
    reveal_strlit("All");
    reveal_strlit("None");
    if let ProjectEntryView::Project(p) = e {
        lemma_id_text_parses(p.id);
    }
    assert("All"@.len() == 3 && "None"@.len() == 4);
    assert("None"@ != "All"@);
}

} // verus!
