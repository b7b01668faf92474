//! The tag manager popup: every tag with its task count; create, rename and
//! delete tags.

use vstd::prelude::*;

use crate::database::database::{Db, DbError};
use crate::database::state::{after_delete_tag, after_rename_tag, norm, rewrite_count, upsert, with_tags};
use crate::text::{lowercase, to_lower, trim, trim_str, string_from_chars};
use crate::ui::dates::{digits, push_digits, push_str};

verus! {

/// What the popup is doing right now.
pub enum TagUiMode {
    Browse,
    /// Typing a new tag's name.
    New(String),
    /// Renaming `from`; `buf` is the draft name.
    Rename { from: String, buf: String },
    /// Waiting for y / Enter to delete this tag.
    ConfirmDelete(String),
}

/// The mode, with its texts as character sequences.
pub enum TagModeView {
    Browse,
    New(Seq<char>),
    Rename { from: Seq<char>, buf: Seq<char> },
    ConfirmDelete(Seq<char>),
}

impl View for TagUiMode {
    type V = TagModeView;

    open spec fn view(&self) -> TagModeView {
        match self {
            TagUiMode::Browse => TagModeView::Browse,
            TagUiMode::New(s) => TagModeView::New(s@),
            TagUiMode::Rename { from, buf } => TagModeView::Rename { from: from@, buf: buf@ },
            TagUiMode::ConfirmDelete(s) => TagModeView::ConfirmDelete(s@),
        }
    }
}

impl Clone for TagUiMode {
    fn clone(&self) -> (r: TagUiMode)
        ensures
            r@ == self@,
    {
        match self {
            TagUiMode::Browse => TagUiMode::Browse,
            TagUiMode::New(s) => TagUiMode::New(s.clone()),
            TagUiMode::Rename { from, buf } => TagUiMode::Rename { from: from.clone(), buf: buf.clone() },
            TagUiMode::ConfirmDelete(s) => TagUiMode::ConfirmDelete(s.clone()),
        }
    }
}

impl Default for TagUiMode {
    fn default() -> (m: TagUiMode)
        ensures
            m@ == TagModeView::Browse,
    {
        TagUiMode::Browse
    }
}

/// The views of usage rows.
pub open spec fn row_views(rows: Seq<(String, usize)>) -> Seq<(Seq<char>, usize)> {
    rows.map_values(|r: (String, usize)| (r.0@, r.1))
}

pub struct TagUi {
    pub open: bool,
    pub cursor: usize,
    pub mode: TagUiMode,
    /// `(tag, task count)`, refreshed from the store on open and after each change.
    pub rows: Vec<(String, usize)>,
    /// Focus the name field on the frame after it appears.
    pub focus_input: bool,
}

/// A change to the tags that the popup asks for.
pub enum TagOp {
    /// Store a new tag with this (lowercased, trimmed) name.
    Create(String),
    /// Rename tag `from` to the draft `to`.
    Rename { from: String, to: String },
    /// Delete this tag.
    Delete(String),
}

/// A tag change, with its texts as character sequences.
pub enum TagOpView {
    Create(Seq<char>),
    Rename { from: Seq<char>, to: Seq<char> },
    Delete(Seq<char>),
}

impl View for TagOp {
    type V = TagOpView;

    open spec fn view(&self) -> TagOpView {
        match self {
            TagOp::Create(s) => TagOpView::Create(s@),
            TagOp::Rename { from, to } => TagOpView::Rename { from: from@, to: to@ },
            TagOp::Delete(s) => TagOpView::Delete(s@),
        }
    }
}

/// The views of a list of tag changes.
pub open spec fn op_views(ops: Seq<TagOp>) -> Seq<TagOpView> {
    ops.map_values(|o: TagOp| o@)
}

/// The mode after the clicks that open forms: new, then rename of a listed
/// row, then delete of a listed row (the later one wins).
pub open spec fn mode_after_forms(m: TagModeView, rows: Seq<(String, usize)>, c: TagClicks) -> TagModeView {
    let m1 = if c.new { TagModeView::New(Seq::empty()) } else { m };
    let m2 = match c.rename {
        Some(i) => if i < rows.len() { TagModeView::Rename { from: rows[i as int].0@, buf: rows[i as int].0@ } } else { m1 },
        None => m1,
    };
    match c.delete {
        Some(i) => if i < rows.len() { TagModeView::ConfirmDelete(rows[i as int].0@) } else { m2 },
        None => m2,
    }
}

/// The delete a confirm click asks for, in the mode `m`.
pub open spec fn confirmed_delete(m: TagModeView, c: TagClicks) -> Option<TagOpView> {
    match m {
        TagModeView::ConfirmDelete(tag) => if c.confirm_delete { Some(TagOpView::Delete(tag)) } else { None },
        _ => None,
    }
}

/// The change a submitted name asks for, in the mode `m`.
pub open spec fn submitted(m: TagModeView, c: TagClicks) -> Option<TagOpView> {
    if !c.submit_name {
        None
    } else {
        match m {
            TagModeView::New(buf) => if lowercase(trim(buf)).len() > 0 { Some(TagOpView::Create(lowercase(trim(buf)))) } else { None },
            TagModeView::Rename { from, buf } => if trim(buf).len() > 0 { Some(TagOpView::Rename { from, to: buf }) } else { None },
            _ => None,
        }
    }
}

/// The list of an optional change.
pub open spec fn opt_seq(o: Option<TagOpView>) -> Seq<TagOpView> {
    match o {
        Some(x) => seq![x],
        None => Seq::empty(),
    }
}

/// The keys the popup consumed this frame; each stands for its group of
/// keys (`down` for j or ↓, `new` for o or a, `rename` for e or Enter,
/// `delete` for d or x, `close` for Esc, q or Shift+T, `yes` for y or Enter,
/// `no` for n or Esc).
#[derive(Clone, Copy, Debug, PartialEq, Eq, Structural)]
pub struct TagKeys {
    pub down: bool,
    pub up: bool,
    pub new: bool,
    pub rename: bool,
    pub delete: bool,
    pub close: bool,
    pub yes: bool,
    pub no: bool,
}

/// What the mouse and the name field did this frame.
#[derive(Clone, Copy, Debug, PartialEq, Eq, Structural)]
pub struct TagClicks {
    pub row: Option<usize>,
    pub close: bool,
    pub new: bool,
    pub rename: Option<usize>,
    pub delete: Option<usize>,
    pub confirm_delete: bool,
    pub cancel_delete: bool,
    pub submit_name: bool,
    pub cancel_name: bool,
}

/// The row under the cursor, if any.
pub open spec fn selected_row(rows: Seq<(String, usize)>, cursor: usize) -> Option<(Seq<char>, usize)> {
    if cursor < rows.len() { Some((rows[cursor as int].0@, rows[cursor as int].1)) } else { None }
}

/// The tag of a usage row.
pub open spec fn row_name(r: (Seq<char>, usize)) -> Seq<char> {
    r.0
}

/// The cursor kept on the rows: the last row when past the end.
pub open spec fn cursor_on_rows(cursor: usize, n: int) -> usize {
    if n > 0 && cursor >= n { (n - 1) as usize } else { cursor }
}

/// "1 task" or "N tasks".
pub open spec fn count_text(n: nat) -> Seq<char> {
    if n == 1 { "1 task"@ } else { digits(n) + " tasks"@ }
}

/// The count shown beside a tag.
pub fn count_label(n: usize) -> (s: String)
    ensures
        s@ == count_text(n as nat),
{
    let mut out: Vec<char> = Vec::new();
    proof {
        reveal_strlit("1 task");
        reveal_strlit(" tasks");
    }
    if n == 1 {
        push_str(&mut out, "1 task");
    } else {
        push_digits(&mut out, n as u64);
        push_str(&mut out, " tasks");
    }
    assert(out@ =~= count_text(n as nat));
    string_from_chars(out.as_slice())
}

impl Default for TagUi {
    fn default() -> (t: TagUi)
        ensures
            !t.open,
            t.cursor == 0,
            t.mode@ == TagModeView::Browse,
            t.rows@.len() == 0,
    {
        TagUi { open: false, cursor: 0, mode: TagUiMode::Browse, rows: Vec::new(), focus_input: false }
    }
}


/// The row index `o` names, when it is one of the `n` rows; `d` otherwise.
pub open spec fn row_or(o: Option<usize>, n: int, d: usize) -> usize {
    match o {
        Some(i) => if i < n { i } else { d },
        None => d,
    }
}

/// The cursor after a frame's clicks: a clicked row takes it; unless the
/// popup closes, a rename or delete icon of a row takes it after that.
pub open spec fn cursor_after_clicks(c: usize, n: int, clicks: TagClicks) -> usize {
    let c1 = match clicks.row {
        Some(i) => i,
        None => c,
    };
    if clicks.close { c1 } else { row_or(clicks.delete, n, row_or(clicks.rename, n, c1)) }
}

impl TagUi {
    /// Show the popup in browse mode (the caller reloads the rows).
    pub fn open(&mut self)
        ensures
            final(self).open,
            final(self).mode@ == TagModeView::Browse,
            *final(self) == (TagUi { open: true, mode: final(self).mode, ..*old(self) }),
    {
        self.open = true;
        self.mode = TagUiMode::Browse;
    }

    /// The row under the cursor.
    pub fn selected(&self) -> (r: Option<&(String, usize)>)
        ensures
            match r {
                Some(row) => self.cursor < self.rows@.len() && *row == self.rows@[self.cursor as int],
                None => self.cursor >= self.rows@.len(),
            },
    {
        if self.cursor < self.rows.len() {
            Some(&self.rows[self.cursor])
        } else {
            None
        }
    }

    /// The name field takes the focus once: true the first time after a form opens.
    pub fn take_focus(&mut self) -> (b: bool)
        ensures
            b == old(self).focus_input,
            !final(self).focus_input,
            final(self).mode@ == old(self).mode@,
            final(self).rows@ == old(self).rows@,
            final(self).cursor == old(self).cursor,
            final(self).open == old(self).open,
    {
        let b = self.focus_input;
        self.focus_input = false;
        b
    }

    /// The popup's keys. Browse: down / up move the cursor (within the rows),
    /// new opens the name field, rename starts renaming the row under the
    /// cursor, delete asks to delete it, close shuts the popup. Confirming a
    /// delete: yes deletes (the tag comes back) and no cancels. The name
    /// forms take their keys from the text field instead.
    pub fn handle_keys(&mut self, keys: &TagKeys) -> (r: Option<String>)
        ensures
            final(self).rows@ == old(self).rows@,
            ({
                let n = old(self).rows@.len() as int;
                let c0 = cursor_on_rows(old(self).cursor, n);
                match old(self).mode@ {
                    TagModeView::Browse => {
                        let c1 = if keys.down && n > 0 { if c0 + 1 < n - 1 { c0 + 1 } else { n - 1 } } else { c0 as int };
                        let c2 = if keys.up { if c1 > 0 { c1 - 1 } else { 0 } } else { c1 };
                        let sel = selected_row(old(self).rows@, c2 as usize);
                        &&& final(self).cursor == c2
                        &&& r is None
                        &&& keys.close ==> !final(self).open && final(self).mode@ == TagModeView::Browse
                        &&& !keys.close ==> final(self).open == old(self).open && final(self).mode@ == (
                            if keys.delete && sel is Some { TagModeView::ConfirmDelete(row_name(sel->0)) }
                            else if keys.rename && sel is Some { TagModeView::Rename { from: row_name(sel->0), buf: row_name(sel->0) } }
                            else if keys.new { TagModeView::New(Seq::empty()) }
                            else { TagModeView::Browse })
                    },
                    TagModeView::ConfirmDelete(tag) => {
                        &&& final(self).cursor == c0
                        &&& final(self).open == old(self).open
                        &&& keys.yes ==> (r matches Some(t) && t@ == tag && final(self).mode@ == TagModeView::Browse)
                        &&& !keys.yes && keys.no ==> r is None && final(self).mode@ == TagModeView::Browse
                        &&& !keys.yes && !keys.no ==> r is None && final(self).mode@ == old(self).mode@
                    },
                    _ => {
                        &&& final(self).cursor == c0
                        &&& final(self).open == old(self).open
                        &&& r is None
                        &&& final(self).mode@ == old(self).mode@
                    },
                }
            }),
    {
        let n = self.rows.len();
        if n > 0 && self.cursor >= n {
            self.cursor = n - 1;
        }
        let mode = self.mode.clone();
        match mode {
            TagUiMode::Browse => {
                if keys.down && n > 0 {
                    let next = self.cursor + 1;
                    self.cursor = if next < n - 1 { next } else { n - 1 };
                }
                if keys.up {
                    self.cursor = if self.cursor > 0 { self.cursor - 1 } else { 0 };
                }
                if keys.new {
                    self.mode = TagUiMode::New(String::new());
                    self.focus_input = true;
                }
                if keys.rename && self.cursor < n {
                    let tag = self.rows[self.cursor].0.clone();
                    self.mode = TagUiMode::Rename { from: tag.clone(), buf: tag };
                    self.focus_input = true;
                }
                if keys.delete && self.cursor < n {
                    let tag = self.rows[self.cursor].0.clone();
                    self.mode = TagUiMode::ConfirmDelete(tag);
                }
                if keys.close {
                    self.open = false;
                    self.mode = TagUiMode::Browse;
                }
                None
            },
            TagUiMode::ConfirmDelete(tag) => {
                if keys.yes {
                    self.mode = TagUiMode::Browse;
                    Some(tag)
                } else {
                    if keys.no {
                        self.mode = TagUiMode::Browse;
                    }
                    None
                }
            },
            _ => None,
        }
    }

    /// The clicks and the name field's result, after the popup is drawn: a
    /// click moves the cursor (see `cursor_after_clicks`); close shuts the popup (nothing else happens);
    /// new, rename and delete open their forms for the clicked row; a
    /// confirmed delete deletes; cancel returns to browsing; a submitted name
    /// creates (lowercased and trimmed, if not blank) or renames (if the
    /// draft is not blank). The changes asked for come back in order.
    pub fn apply_clicks(&mut self, clicks: &TagClicks) -> (ops: Vec<TagOp>)
        ensures
            final(self).rows@ == old(self).rows@,
            final(self).cursor == cursor_after_clicks(old(self).cursor, old(self).rows@.len() as int, *clicks),
            final(self).focus_input == (old(self).focus_input || (!clicks.close && (clicks.new
                || (clicks.rename matches Some(i) && i < old(self).rows@.len())))),
            clicks.close ==> ops@.len() == 0 && !final(self).open && final(self).mode@ == TagModeView::Browse,
            !clicks.close ==> ({
                let rows = old(self).rows@;
                let m3 = mode_after_forms(old(self).mode@, rows, *clicks);
                let del = confirmed_delete(m3, *clicks);
                let m4 = if del is Some { TagModeView::Browse } else { m3 };
                let m5 = if clicks.cancel_delete || clicks.cancel_name { TagModeView::Browse } else { m4 };
                let sub = submitted(m5, *clicks);
                &&& final(self).open == old(self).open
                &&& final(self).mode@ == if clicks.submit_name { TagModeView::Browse } else { m5 }
                &&& op_views(ops@) == opt_seq(del) + opt_seq(sub)
            }),
    {
        if let Some(i) = clicks.row {
            self.cursor = i;
        }
        if clicks.close {
            self.open = false;
            self.mode = TagUiMode::Browse;
            return Vec::new();
        }
        if clicks.new {
            self.mode = TagUiMode::New(String::new());
            self.focus_input = true;
        }
        if let Some(i) = clicks.rename {
            if i < self.rows.len() {
                let tag = self.rows[i].0.clone();
                self.cursor = i;
                self.mode = TagUiMode::Rename { from: tag.clone(), buf: tag };
                self.focus_input = true;
            }
        }
        if let Some(i) = clicks.delete {
            if i < self.rows.len() {
                let tag = self.rows[i].0.clone();
                self.cursor = i;
                self.mode = TagUiMode::ConfirmDelete(tag);
            }
        }
        let mut ops: Vec<TagOp> = Vec::new();
        if clicks.confirm_delete {
            let mode = self.mode.clone();
            if let TagUiMode::ConfirmDelete(tag) = mode {
                ops.push(TagOp::Delete(tag));
                self.mode = TagUiMode::Browse;
            }
        }
        let ghost after_del = op_views(ops@);
        if clicks.cancel_delete || clicks.cancel_name {
            self.mode = TagUiMode::Browse;
        }
        proof {
            assert(opt_seq(None) =~= Seq::<TagOpView>::empty());
            if after_del.len() == 0 {
                assert(after_del =~= Seq::<TagOpView>::empty());
            } else {
                assert(after_del =~= seq![after_del[0]]);
            }
        }
        if clicks.submit_name {
            let mode = self.mode.clone();
            match mode {
                TagUiMode::New(buf) => {
                    let t = trim_str(buf.as_str());
                    let name = to_lower(t.as_str());
                    if name.unicode_len() > 0 {
                        ops.push(TagOp::Create(name));
                        assert(op_views(ops@) =~= after_del.push(ops@.last()@));
                    }
                },
                TagUiMode::Rename { from, buf } => {
                    let t = trim_str(buf.as_str());
                    if t.unicode_len() > 0 {
                        ops.push(TagOp::Rename { from, to: buf });
                        assert(op_views(ops@) =~= after_del.push(ops@.last()@));
                    }
                },
                _ => {},
            }
            self.mode = TagUiMode::Browse;
        }
        ops
    }

    /// The prompt that asks to delete `tag`, with how many tasks carry it
    /// (its first row's count, or 0).
    pub fn delete_prompt(&self, tag: &String) -> (s: String)
        ensures
            s@ == delete_text(tag@, count_in(row_views(self.rows@), tag@)),
    {
        let mut i: usize = 0;
        let ghost rv = row_views(self.rows@);
        while i < self.rows.len()
            invariant
                rv == row_views(self.rows@),
                i <= self.rows@.len(),
                forall|k: int| 0 <= k < i ==> rv[k].0 != tag@,
            decreases self.rows@.len() - i,
        {
            assert(rv[i as int] == (self.rows@[i as int].0@, self.rows@[i as int].1));
            if self.rows[i].0 == *tag {
                let count = self.rows[i].1;
                proof {
                    lemma_first_count_none(rv, tag@, i as int);
                    assert(first_count(rv, tag@, i + 1) == Some(count));
                    lemma_first_count_stable(rv, tag@, i + 1, rv.len() as int);
                }
                return build_delete_prompt(tag.as_str(), count);
            }
            i = i + 1;
        }
        proof {
            lemma_first_count_none(rv, tag@, rv.len() as int);
        }
        build_delete_prompt(tag.as_str(), 0)
    }
}

/// The count on the first of the first `n` rows named `tag`.
pub open spec fn first_count(rows: Seq<(Seq<char>, usize)>, tag: Seq<char>, n: int) -> Option<usize>
    decreases n,
{
    if n <= 0 {
        None
    } else {
        match first_count(rows, tag, n - 1) {
            Some(c) => Some(c),
            None => if rows[n - 1].0 == tag { Some(rows[n - 1].1) } else { None },
        }
    }
}

/// The count on the first row named `tag`, or 0.
pub open spec fn count_in(rows: Seq<(Seq<char>, usize)>, tag: Seq<char>) -> nat {
    match first_count(rows, tag, rows.len() as int) {
        Some(c) => c as nat,
        None => 0,
    }
}

proof fn lemma_first_count_stable(rows: Seq<(Seq<char>, usize)>, tag: Seq<char>, m: int, n: int)
    requires
        0 < m <= n <= rows.len(),
        first_count(rows, tag, m) is Some,
    ensures
        first_count(rows, tag, n) == first_count(rows, tag, m),
    decreases n - m,
{
    if n > m {
        lemma_first_count_stable(rows, tag, m, n - 1);
    }
}

proof fn lemma_first_count_none(rows: Seq<(Seq<char>, usize)>, tag: Seq<char>, n: int)
    requires
        0 <= n <= rows.len(),
        forall|k: int| 0 <= k < n ==> rows[k].0 != tag,
    ensures
        first_count(rows, tag, n) is None,
    decreases n,
{
    if n > 0 {
        lemma_first_count_none(rows, tag, n - 1);
    }
}

/// `Delete "tag"? It will be removed from N task(s).`
pub open spec fn delete_text(tag: Seq<char>, count: nat) -> Seq<char> {
    "Delete \""@ + tag + "\"? It will be removed from "@ + digits(count) + " task"@
        + (if count == 1 { Seq::empty() } else { "s"@ }) + "."@
}

fn build_delete_prompt(tag: &str, count: usize) -> (s: String)
    ensures
        s@ == delete_text(tag@, count as nat),
{
    let mut out: Vec<char> = Vec::new();
    proof {
        reveal_strlit("Delete \"");
        reveal_strlit("\"? It will be removed from ");
        reveal_strlit(" task");
        reveal_strlit("s");
        reveal_strlit(".");
    }
    push_str(&mut out, "Delete \"");
    push_str(&mut out, tag);
    push_str(&mut out, "\"? It will be removed from ");
    push_digits(&mut out, count as u64);
    push_str(&mut out, " task");
    if count != 1 {
        push_str(&mut out, "s");
    }
    push_str(&mut out, ".");
    assert(out@ =~= delete_text(tag@, count as nat));
    string_from_chars(out.as_slice())
}

/// Carry out a tag change on the store; a created tag reports 0 tasks changed.
pub fn run_tag_op(db: &mut Db, op: TagOp) -> (r: Result<usize, DbError>)
    requires
        old(db).wf(),
    ensures
        final(db).wf(),
        match op {
            TagOp::Create(name) => r == Ok::<usize, DbError>(0) && final(db)@ == with_tags(old(db)@, upsert(old(db)@.tags, seq![name@])),
            TagOp::Rename { from, to } => {
                &&& norm(to@).len() == 0 ==> r == Err::<usize, DbError>(DbError::EmptyTagName) && final(db)@ == old(db)@
                &&& norm(to@).len() > 0 && norm(from@) == norm(to@) ==> r == Ok::<usize, DbError>(0) && final(db)@ == old(db)@
                &&& norm(to@).len() > 0 && norm(from@) != norm(to@) ==> r == Ok::<usize, DbError>(
                    rewrite_count(old(db)@.tasks, norm(from@), old(db)@.tasks.len()) as usize)
                    && final(db)@ == after_rename_tag(old(db)@, norm(from@), norm(to@))
            },
            TagOp::Delete(name) => r == Ok::<usize, DbError>(rewrite_count(old(db)@.tasks, norm(name@), old(db)@.tasks.len()) as usize)
                && final(db)@ == after_delete_tag(old(db)@, norm(name@)),
        },
{
    match op {
        TagOp::Create(name) => {
            let v: Vec<String> = vec![name];
            let _ = db.upsert_tags(v.as_slice());
            proof {
                assert(crate::database::models::str_views(v@) =~= seq![v@[0]@]);
            }
            Ok(0)
        },
        TagOp::Rename { from, to } => db.rename_tag(from.as_str(), to.as_str()),
        TagOp::Delete(name) => db.delete_tag(name.as_str()),
    }
}

} // verus!
