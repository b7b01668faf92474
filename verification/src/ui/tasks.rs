//! The task pane's state: the loaded list, the cursor, the filter, the
//! selection and the editor's draft, and how the visible rows are chosen.

use vstd::prelude::*;

use crate::database::models::{
    DateTime, ObjectId, Priority, Recurrence, Task, TaskStatus, TaskView, copy_strings, priority_text,
    str_views,
};
use crate::text::{chars_of, contains_chars, contains_seq, occurs_at, lowercase, string_from_chars, to_lower, trim, trim_chars};
use crate::ui::app::EditFocus;

verus! {

// ---- tags typed as text ----

/// The pieces of `s` between commas, as `str::split(',')` gives them.
pub open spec fn split_commas(s: Seq<char>) -> Seq<Seq<char>>
    decreases s.len(),
{
    if s.len() == 0 {
        seq![Seq::empty()]
    } else {
        let rest = split_commas(s.drop_last());
        if s.last() == ',' {
            rest.push(Seq::empty())
        } else {
            rest.update(rest.len() - 1, rest.last().push(s.last()))
        }
    }
}

/// The trimmed pieces that are not blank, in order.
pub open spec fn kept_pieces(pieces: Seq<Seq<char>>) -> Seq<Seq<char>>
    decreases pieces.len(),
{
    if pieces.len() == 0 {
        Seq::empty()
    } else {
        let k = kept_pieces(pieces.drop_last());
        let t = trim(pieces.last());
        if t.len() > 0 { k.push(t) } else { k }
    }
}

/// The tags typed in `buf`: comma-separated, trimmed, blanks dropped;
/// `None` when none is left.
pub open spec fn parsed_tags(buf: Seq<char>) -> Option<Seq<Seq<char>>> {
    let t = kept_pieces(split_commas(buf));
    if buf.len() == 0 || t.len() == 0 { None } else { Some(t) }
}

pub proof fn lemma_split_nonempty(s: Seq<char>)
    ensures
        split_commas(s).len() >= 1,
    decreases s.len(),
{
    if s.len() > 0 {
        lemma_split_nonempty(s.drop_last());
    }
}

/// Finish one comma-separated piece: keep it trimmed unless it is blank.
fn keep_piece(out: &mut Vec<String>, piece: &Vec<char>)
    ensures
        trim(piece@).len() > 0 ==> str_views(final(out)@) == str_views(old(out)@).push(trim(piece@)),
        trim(piece@).len() == 0 ==> str_views(final(out)@) == str_views(old(out)@),
{
    let t = trim_chars(piece.as_slice());
    if t.len() > 0 {
        let ghost before = str_views(out@);
        out.push(string_from_chars(t.as_slice()));
        assert(str_views(out@) =~= before.push(trim(piece@)));
    }
}

/// The tags typed in the editor's tag field: comma-separated, trimmed,
/// blanks dropped; `None` when none is left.
pub fn parse_tags(buf: &str) -> (r: Option<Vec<String>>)
    ensures
        match r {
            None => parsed_tags(buf@) is None,
            Some(v) => parsed_tags(buf@) == Some(str_views(v@)),
        },
{
    let chars = chars_of(buf);
    if chars.len() == 0 {
        return None;
    }
    let ghost s = buf@;
    let mut out: Vec<String> = Vec::new();
    let mut cur: Vec<char> = Vec::new();
    let mut i: usize = 0;
    proof {
        assert(s.subrange(0, 0) =~= Seq::<char>::empty());
        assert(split_commas(Seq::<char>::empty()).drop_last() =~= Seq::<Seq<char>>::empty());
        assert(str_views(out@) =~= Seq::<Seq<char>>::empty());
    }
    while i < chars.len()
        invariant
            chars@ == s,
            i <= s.len(),
            split_commas(s.subrange(0, i as int)).len() >= 1,
            str_views(out@) == kept_pieces(split_commas(s.subrange(0, i as int)).drop_last()),
            cur@ == split_commas(s.subrange(0, i as int)).last(),
        decreases s.len() - i,
    {
        let ghost pre = s.subrange(0, i as int);
        let ghost next = s.subrange(0, i + 1);
        assert(next.drop_last() =~= pre);
        assert(next.last() == s[i as int]);
        let ghost sp = split_commas(pre);
        let c = chars[i];
        if c == ',' {
            keep_piece(&mut out, &cur);
            proof {
                assert(split_commas(next) == sp.push(Seq::<char>::empty()));
                assert(split_commas(next).drop_last() =~= sp);
                assert(sp.drop_last().push(sp.last()) =~= sp);
            }
            cur = Vec::new();
            assert(cur@ =~= Seq::<char>::empty());
        } else {
            cur.push(c);
            proof {
                assert(split_commas(next).drop_last() =~= sp.drop_last());
            }
        }
        i = i + 1;
    }
    keep_piece(&mut out, &cur);
    proof {
        let sp = split_commas(s.subrange(0, s.len() as int));
        assert(s.subrange(0, s.len() as int) =~= s);
        assert(sp.drop_last().push(sp.last()) =~= sp);
    }
    if out.len() == 0 {
        None
    } else {
        Some(out)
    }
}

/// `tags` joined with ", ".
pub open spec fn joined_tags(tags: Seq<Seq<char>>) -> Seq<char>
    decreases tags.len(),
{
    if tags.len() == 0 {
        Seq::empty()
    } else if tags.len() == 1 {
        tags[0]
    } else {
        joined_tags(tags.drop_last()) + seq![',', ' '] + tags.last()
    }
}

/// `tags.join(", ")`.
pub fn join_tags(tags: &Vec<String>) -> (s: String)
    ensures
        s@ == joined_tags(str_views(tags@)),
{
    let ghost tv = str_views(tags@);
    let mut out: Vec<char> = Vec::new();
    let mut i: usize = 0;
    assert(tv.subrange(0, 0) =~= Seq::<Seq<char>>::empty());
    while i < tags.len()
        invariant
            tv == str_views(tags@),
            i <= tv.len(),
            out@ == joined_tags(tv.subrange(0, i as int)),
        decreases tv.len() - i,
    {
        let ghost before = out@;
        assert(tv.subrange(0, i + 1).drop_last() =~= tv.subrange(0, i as int));
        assert(tv.subrange(0, i + 1).last() == tags@[i as int]@);
        if i > 0 {
            out.push(',');
            out.push(' ');
        }
        let c = chars_of(tags[i].as_str());
        let mut j: usize = 0;
        let ghost mid = out@;
        while j < c.len()
            invariant
                j <= c@.len(),
                out@ == mid + c@.subrange(0, j as int),
            decreases c@.len() - j,
        {
            out.push(c[j]);
            assert(c@.subrange(0, j + 1) =~= c@.subrange(0, j as int).push(c@[j as int]));
            j = j + 1;
        }
        assert(c@.subrange(0, c@.len() as int) =~= c@);
        proof {
            if i == 0 {
                assert(tv.subrange(0, 1) =~= seq![tags@[0]@]);
                assert(out@ =~= joined_tags(tv.subrange(0, 1)));
            } else {
                assert(out@ =~= joined_tags(tv.subrange(0, i + 1)));
            }
        }
        i = i + 1;
    }
    assert(tv.subrange(0, tv.len() as int) =~= tv);
    string_from_chars(out.as_slice())
}

/// A tag as the editor keeps it: not blank, already trimmed, and without a comma.
pub open spec fn plain_tag(t: Seq<char>) -> bool {
    &&& t.len() > 0
    &&& trim(t) == t
    &&& forall|i: int| 0 <= i < t.len() ==> t[i] != ','
}

proof fn lemma_split_append(s: Seq<char>, t: Seq<char>)
    requires
        forall|i: int| 0 <= i < t.len() ==> t[i] != ',',
    ensures
        split_commas(s + t) == split_commas(s).update(split_commas(s).len() - 1, split_commas(s).last() + t),
    decreases t.len(),
{
    lemma_split_nonempty(s);
    let sp = split_commas(s);
    if t.len() == 0 {
        assert(s + t =~= s);
        assert(sp.last() + t =~= sp.last());
        assert(sp.update(sp.len() - 1, sp.last()) =~= sp);
    } else {
        let t0 = t.drop_last();
        lemma_split_append(s, t0);
        assert((s + t).drop_last() =~= s + t0);
        assert((s + t).last() == t.last());
        let rest = split_commas(s + t0);
        assert(rest.len() == sp.len());
        assert(rest.last() == sp.last() + t0);
        assert((sp.last() + t0).push(t.last()) =~= sp.last() + t);
        assert(rest.update(rest.len() - 1, rest.last().push(t.last())) =~= sp.update(sp.len() - 1, sp.last() + t));
    }
}

proof fn lemma_kept_push(pieces: Seq<Seq<char>>, p: Seq<char>)
    ensures
        kept_pieces(pieces.push(p)) == (if trim(p).len() > 0 { kept_pieces(pieces).push(trim(p)) } else { kept_pieces(pieces) }),
{
    assert(pieces.push(p).drop_last() =~= pieces);
}

proof fn lemma_trim_start_len(s: Seq<char>)
    ensures
        crate::text::trim_start(s).len() <= s.len(),
        crate::text::trim_start(s).len() == s.len() ==> crate::text::trim_start(s) == s,
    decreases s.len(),
{
    if s.len() > 0 && crate::text::is_whitespace(s[0]) {
        lemma_trim_start_len(s.drop_first());
    }
}

proof fn lemma_trim_end_len(s: Seq<char>)
    ensures
        crate::text::trim_end(s).len() <= s.len(),
    decreases s.len(),
{
    if s.len() > 0 && crate::text::is_whitespace(s.last()) {
        lemma_trim_end_len(s.drop_last());
    }
}

/// A space in front of a plain tag trims away.
proof fn lemma_trim_spaced(b: Seq<char>)
    requires
        plain_tag(b),
    ensures
        trim(seq![' '] + b) == b,
{
    lemma_trim_start_len(b);
    lemma_trim_end_len(crate::text::trim_start(b));
    assert(crate::text::trim_start(b) == b);
    let sb = seq![' '] + b;
    assert(sb[0] == ' ');
    assert(crate::text::is_whitespace(' '));
    assert(sb.drop_first() =~= b);
    assert(crate::text::trim_start(sb) == crate::text::trim_start(b));
}

proof fn lemma_kept_joined(tags: Seq<Seq<char>>)
    requires
        tags.len() > 0,
        forall|i: int| 0 <= i < tags.len() ==> plain_tag(#[trigger] tags[i]),
    ensures
        kept_pieces(split_commas(joined_tags(tags))) == tags,
        joined_tags(tags).len() > 0,
    decreases tags.len(),
{
    let b = tags.last();
    assert(plain_tag(tags[tags.len() - 1]));
    let e = Seq::<char>::empty();
    if tags.len() == 1 {
        lemma_split_append(e, b);
        assert(e + b =~= b);
        assert(split_commas(e) == seq![e]);
        assert(seq![e].update(0, e + b) =~= seq![b]);
        lemma_kept_push(Seq::empty(), b);
        assert(seq![b] =~= Seq::<Seq<char>>::empty().push(b));
        assert(tags =~= seq![b]);
    } else {
        let front = tags.drop_last();
        assert forall|i: int| 0 <= i < front.len() implies plain_tag(#[trigger] front[i]) by {
            assert(front[i] == tags[i]);
        }
        lemma_kept_joined(front);
        let j = joined_tags(front);
        let t = seq![' '] + b;
        assert(joined_tags(tags) == j + seq![',', ' '] + b);
        assert(j + seq![',', ' '] + b =~= j.push(',') + t);
        assert forall|i: int| 0 <= i < t.len() implies t[i] != ',' by {
            if i > 0 {
                assert(t[i] == b[i - 1]);
            }
        }
        lemma_split_append(j.push(','), t);
        assert(j.push(',').drop_last() =~= j);
        let sj = split_commas(j);
        assert(split_commas(j.push(',')) == sj.push(e));
        assert(sj.push(e).update(sj.len() as int, e + t) =~= sj.push(t));
        lemma_trim_spaced(b);
        lemma_kept_push(sj, t);
        assert(tags =~= front.push(b));
    }
}

/// Loading tags into the editor and reading them back gives the same tags:
/// for tags that are not blank, already trimmed and free of commas,
/// `parse_tags(join_tags(tags))` is `tags`.
pub proof fn law_tags_roundtrip(tags: Seq<Seq<char>>)
    requires
        tags.len() > 0,
        forall|i: int| 0 <= i < tags.len() ==> plain_tag(#[trigger] tags[i]),
    ensures
        parsed_tags(joined_tags(tags)) == Some(tags),
{
    lemma_kept_joined(tags);
}


// ---- ordering of the list ----

/// How the task list is ordered. `Free` preserves the user-defined drag order.
#[derive(Clone, Copy, Debug, PartialEq, Eq, Structural)]
pub enum SortOrder {
    Free,
    DueDate,
    Modified,
    Status,
    Tags,
}

impl Default for SortOrder {
    fn default() -> (s: SortOrder)
        ensures
            s == SortOrder::Free,
    {
        SortOrder::Free
    }
}

/// The label of a sort order.
pub open spec fn sort_label(s: SortOrder) -> Seq<char> {
    match s {
        SortOrder::Free => "Manual"@,
        SortOrder::DueDate => "Due Date"@,
        SortOrder::Modified => "Modified"@,
        SortOrder::Status => "Status"@,
        SortOrder::Tags => "Tags"@,
    }
}

impl SortOrder {
    /// Human-readable label shown in the sort picker and status bar.
    pub fn label(&self) -> (s: &'static str)
        ensures
            s@ == sort_label(*self),
    {
        proof {
            reveal_strlit("Manual");
            reveal_strlit("Due Date");
            reveal_strlit("Modified");
            reveal_strlit("Status");
            reveal_strlit("Tags");
        }
        match self {
            SortOrder::Free => "Manual",
            SortOrder::DueDate => "Due Date",
            SortOrder::Modified => "Modified",
            SortOrder::Status => "Status",
            SortOrder::Tags => "Tags",
        }
    }
}

// ---- the editor's draft ----

/// Mutable working copy of a task's fields while the editor is open.
/// Flushed back to a `Task` on save, or discarded on Esc.
pub struct TaskWriter {
    pub title_buffer: String,
    pub details_buffer: String,
    pub tags_buffer: String,
    pub duedate: Option<DateTime>,
    pub due_text: String,
    pub wait_until: Option<DateTime>,
    pub wait_text: String,
    pub priority: Priority,
    pub status: TaskStatus,
    pub code: bool,
    pub recurrence: Option<Recurrence>,
    pub has_focus: EditFocus,
    pub order: u64,
    pub initial_frame: bool,
}

/// An empty draft: blank texts, no dates or recurrence, not started, normal
/// priority, nothing focused.
pub open spec fn is_cleared(w: TaskWriter) -> bool {
    &&& w.title_buffer@.len() == 0
    &&& w.details_buffer@.len() == 0
    &&& w.tags_buffer@.len() == 0
    &&& w.due_text@.len() == 0
    &&& w.duedate is None
    &&& w.wait_text@.len() == 0
    &&& w.wait_until is None
    &&& w.priority == Priority::Normal
    &&& w.status == TaskStatus::NotStarted
    &&& w.recurrence is None
    &&& w.has_focus == EditFocus::Unfocused
    &&& w.initial_frame
}

impl Default for TaskWriter {
    fn default() -> (w: TaskWriter)
        ensures
            is_cleared(w),
            !w.code,
            w.order == 0,
    {
        TaskWriter {
            title_buffer: String::new(),
            details_buffer: String::new(),
            tags_buffer: String::new(),
            duedate: None,
            due_text: String::new(),
            wait_until: None,
            wait_text: String::new(),
            priority: Priority::Normal,
            status: TaskStatus::NotStarted,
            code: false,
            recurrence: None,
            has_focus: EditFocus::Unfocused,
            order: 0,
            initial_frame: true,
        }
    }
}

impl TaskWriter {
    /// Clear the draft for the next task; `code` and `order` are kept.
    pub fn flush(&mut self)
        ensures
            is_cleared(*final(self)),
            final(self).code == old(self).code,
            final(self).order == old(self).order,
    {
        self.title_buffer = String::new();
        self.details_buffer = String::new();
        self.tags_buffer = String::new();
        self.due_text = String::new();
        self.duedate = None;
        self.wait_text = String::new();
        self.wait_until = None;
        self.priority = Priority::Normal;
        self.status = TaskStatus::NotStarted;
        self.recurrence = None;
        self.has_focus = EditFocus::Unfocused;
        self.initial_frame = true;
    }

    /// A draft of `value`'s fields, its tags joined with ", ".
    pub fn from_task(value: Task) -> (w: TaskWriter)
        ensures
            w.title_buffer@ == value@.title,
            w.details_buffer@ == value@.details,
            w.code == value.code,
            w.recurrence == value.recurrence,
            w.status == value.status,
            w.tags_buffer@ == match value@.tags {
                Some(t) => joined_tags(t),
                None => Seq::empty(),
            },
            w.duedate == value.due,
            w.due_text@.len() == 0,
            w.wait_until == value.wait_until,
            w.wait_text@.len() == 0,
            w.priority == value.priority,
            w.order == value.order,
            w.has_focus == EditFocus::Unfocused,
            !w.initial_frame,
    {
        let tags_buffer = match &value.tags {
            Some(t) => join_tags(t),
            None => String::new(),
        };
        TaskWriter {
            title_buffer: value.title,
            details_buffer: value.details,
            tags_buffer,
            duedate: value.due,
            due_text: String::new(),
            wait_until: value.wait_until,
            wait_text: String::new(),
            priority: value.priority,
            status: value.status,
            code: value.code,
            recurrence: value.recurrence,
            has_focus: EditFocus::Unfocused,
            order: value.order,
            initial_frame: false,
        }
    }
}

// ---- which rows show ----

/// The task waits until a time later than `now`.
pub open spec fn waiting(t: TaskView, now: i64) -> bool {
    t.wait_until matches Some(w) && w.millis > now
}

/// The task matches the lowercased query `q`: in its title, its priority or
/// one of its tags, ignoring case; an empty query matches every task.
pub open spec fn matches_query(t: TaskView, q: Seq<char>) -> bool {
    ||| q.len() == 0
    ||| contains_seq(lowercase(t.title), q)
    ||| contains_seq(lowercase(priority_text(t.priority)), q)
    ||| tag_hit(t.tags, q)
}

/// Some tag contains `q` once lowercased.
pub open spec fn tag_hit(tags: Option<Seq<Seq<char>>>, q: Seq<char>) -> bool {
    match tags {
        Some(ts) => exists|k: int| 0 <= k < ts.len() && contains_seq(lowercase(#[trigger] ts[k]), q),
        None => false,
    }
}

/// The task shows at time `now` under the filter `filter`.
pub open spec fn shown(t: TaskView, filter: Seq<char>, now: i64) -> bool {
    !waiting(t, now) && matches_query(t, lowercase(filter))
}

/// The indices below `n` of the tasks that show, ascending.
pub open spec fn shown_indices(ts: Seq<TaskView>, filter: Seq<char>, now: i64, n: int) -> Seq<usize>
    decreases n,
{
    if n <= 0 {
        Seq::empty()
    } else {
        let rest = shown_indices(ts, filter, now, n - 1);
        if shown(ts[n - 1], filter, now) { rest.push((n - 1) as usize) } else { rest }
    }
}

proof fn lemma_shown_member(ts: Seq<TaskView>, filter: Seq<char>, now: i64, n: int, i: int)
    requires
        0 <= n <= ts.len(),
        ts.len() < usize::MAX,
        0 <= i,
        i < usize::MAX,
    ensures
        shown_indices(ts, filter, now, n).contains(i as usize) <==> (i < n && shown(ts[i], filter, now)),
    decreases n,
{
    if n > 0 {
        lemma_shown_member(ts, filter, now, n - 1, i);
        let rest = shown_indices(ts, filter, now, n - 1);
        if shown(ts[n - 1], filter, now) {
            let r2 = rest.push((n - 1) as usize);
            if r2.contains(i as usize) && i != n - 1 {
                let w = choose|w: int| 0 <= w < r2.len() && r2[w] == i as usize;
                assert(r2[rest.len() as int] == (n - 1) as usize);
                assert(w < rest.len());
                assert(rest[w] == i as usize);
            }
            if rest.contains(i as usize) {
                let w = choose|w: int| 0 <= w < rest.len() && rest[w] == i as usize;
                assert(r2[w] == i as usize);
            }
            if i == n - 1 {
                assert(r2[rest.len() as int] == i as usize);
            }
        }
    }
}

/// Law: the filter searches every tag. A task that is not waiting and has a
/// tag (at any position) whose lowercase form contains the lowercased query
/// is among the visible rows.
pub proof fn law_any_tag_shows(ts: Seq<TaskView>, filter: Seq<char>, now: i64, i: int, k: int)
    requires
        0 <= i < ts.len(),
        ts.len() < usize::MAX,
        ts[i].wait_until is None || ts[i].wait_until->0.millis <= now,
        ts[i].tags matches Some(tg) && 0 <= k < tg.len() && contains_seq(lowercase(tg[k]), lowercase(filter)),
    ensures
        shown_indices(ts, filter, now, ts.len() as int).contains(i as usize),
{
    let tg = ts[i].tags->0;
    assert(contains_seq(lowercase(tg[k]), lowercase(filter)));
    assert(tag_hit(ts[i].tags, lowercase(filter)));
    lemma_shown_member(ts, filter, now, ts.len() as int, i);
}

/// Law: the visible rows are exactly the tasks that are not waiting and
/// match the lowercased query in their lowercased title, their priority's
/// name or any of their tags (every task matches an empty query).
pub proof fn law_visible_rows(ts: Seq<TaskView>, filter: Seq<char>, now: i64, i: int)
    requires
        0 <= i < ts.len(),
        ts.len() < usize::MAX,
    ensures
        shown_indices(ts, filter, now, ts.len() as int).contains(i as usize) <==> {
            let t = ts[i];
            let q = lowercase(filter);
            &&& !(t.wait_until matches Some(w) && w.millis > now)
            &&& {
                ||| q.len() == 0
                ||| contains_seq(lowercase(t.title), q)
                ||| contains_seq(lowercase(priority_text(t.priority)), q)
                ||| (t.tags matches Some(tg) && exists|k: int| 0 <= k < tg.len() && contains_seq(lowercase(#[trigger] tg[k]), q))
            }
        },
{
    lemma_shown_member(ts, filter, now, ts.len() as int, i);
}

/// Law: a task whose wait date is still ahead is never among the visible rows,
/// whatever the query.
pub proof fn law_waiting_hidden(ts: Seq<TaskView>, filter: Seq<char>, now: i64, i: int)
    requires
        0 <= i < ts.len(),
        ts.len() < usize::MAX,
        ts[i].wait_until matches Some(w) && w.millis > now,
    ensures
        !shown_indices(ts, filter, now, ts.len() as int).contains(i as usize),
{
    lemma_shown_member(ts, filter, now, ts.len() as int, i);
}

/// Law: a task that is not waiting and whose lowercased title contains the
/// lowercased query (every title contains the empty query) is visible.
pub proof fn law_title_shows(ts: Seq<TaskView>, filter: Seq<char>, now: i64, i: int)
    requires
        0 <= i < ts.len(),
        ts.len() < usize::MAX,
        ts[i].wait_until is None || ts[i].wait_until->0.millis <= now,
        lowercase(filter).len() == 0 || contains_seq(lowercase(ts[i].title), lowercase(filter)),
    ensures
        shown_indices(ts, filter, now, ts.len() as int).contains(i as usize),
{
    lemma_shown_member(ts, filter, now, ts.len() as int, i);
}

/// The views of a list of tasks.
pub open spec fn views(v: Seq<Task>) -> Seq<TaskView> {
    v.map_values(|t: Task| t@)
}

/// Whether `q` occurs in the lowercase form of `s`.
fn lower_contains(s: &str, q: &Vec<char>) -> (b: bool)
    ensures
        b == contains_seq(lowercase(s@), q@),
{
    let l = to_lower(s);
    let lc = chars_of(l.as_str());
    contains_chars(lc.as_slice(), q.as_slice())
}

/// Whether task `t` matches the lowercased query `q`.
fn task_matches(t: &Task, q: &Vec<char>) -> (b: bool)
    ensures
        b == matches_query(t@, q@),
{
    if q.len() == 0 {
        return true;
    }
    if lower_contains(t.title.as_str(), q) {
        return true;
    }
    if lower_contains(t.priority.label(), q) {
        return true;
    }
    match &t.tags {
        None => false,
        Some(tags) => {
            let mut k: usize = 0;
            while k < tags.len()
                invariant
                    t@.tags == Some(str_views(tags@)),
                    k <= tags@.len(),
                    forall|m: int| 0 <= m < k ==> !contains_seq(lowercase(tags@[m]@), q@),
                decreases tags@.len() - k,
            {
                if lower_contains(tags[k].as_str(), q) {
                    assert(str_views(tags@)[k as int] == tags@[k as int]@);
                    proof {
                        let tg = str_views(tags@);
                        let w = choose|w: int| occurs_at(lowercase(tg[k as int]), q@, w);
                        assert(occurs_at(lowercase(tg[k as int]), q@, w));
                        let o = t@.tags;
                        assert(o->0 == tg);
                        assert(tag_hit(o, q@));
                    }
                    return true;
                }
                k = k + 1;
            }
            assert forall|m: int| 0 <= m < str_views(tags@).len() implies !contains_seq(lowercase(#[trigger] str_views(tags@)[m]), q@) by {
                assert(str_views(tags@)[m] == tags@[m]@);
            }
            false
        },
    }
}

/// All per-frame task-pane state: the loaded list, cursor, filters, pickers, and editor draft.
pub struct TaskManager {
    pub tasks: Vec<Task>,
    pub current: Option<usize>,
    pub writer: TaskWriter,
    /// Ids of the Tab-selected tasks, each once.
    pub selected_tasks: Vec<ObjectId>,
    /// Yanked tasks, in list order; `p` / `Shift+P` paste all of them.
    pub clipboard: Vec<Task>,
    /// First `g` of a `gg` (jump to top) was pressed; cleared by any other key.
    pub pending_g: bool,
    pub filter_query: String,
    pub filter_open: bool,
    pub filter_just_opened: bool,
    pub show_completed: bool,
    pub status_picker_open: bool,
    pub status_picker_task_id: Option<ObjectId>,
    pub status_picker_ids: Vec<ObjectId>,
    pub status_picker_cursor: usize,
    pub sort_order: SortOrder,
    pub sort_picker_open: bool,
    pub sort_picker_cursor: usize,
    /// Highlighted tag completion; `None` = not moved yet (top item is highlighted).
    pub tag_suggestion_idx: Option<usize>,
    /// Text the completion menu was last built for; a change resets the menu.
    pub tag_menu_query: String,
    /// Menu closed with Esc / Ctrl+E; reopens once the text changes.
    pub tag_menu_dismissed: bool,
    /// Filtered indices into `tasks`, recomputed once per frame via
    /// `refresh_visible_cache`.
    pub visible_cache: Vec<usize>,
}

impl Default for TaskManager {
    fn default() -> (m: TaskManager)
        ensures
            m.tasks@.len() == 0,
            m.current is None,
            is_cleared(m.writer),
            m.selected_tasks@.len() == 0,
            m.clipboard@.len() == 0,
            !m.pending_g,
            m.filter_query@.len() == 0,
            !m.filter_open,
            !m.show_completed,
            !m.status_picker_open,
            m.sort_order == SortOrder::Free,
            !m.sort_picker_open,
            m.visible_cache@.len() == 0,
    {
        TaskManager {
            tasks: Vec::new(),
            current: None,
            writer: TaskWriter::default(),
            selected_tasks: Vec::new(),
            clipboard: Vec::new(),
            pending_g: false,
            filter_query: String::new(),
            filter_open: false,
            filter_just_opened: false,
            show_completed: false,
            status_picker_open: false,
            status_picker_task_id: None,
            status_picker_ids: Vec::new(),
            status_picker_cursor: 0,
            sort_order: SortOrder::Free,
            sort_picker_open: false,
            sort_picker_cursor: 0,
            tag_suggestion_idx: None,
            tag_menu_query: String::new(),
            tag_menu_dismissed: false,
            visible_cache: Vec::new(),
        }
    }
}

impl TaskManager {
    /// Indices into `self.tasks` of the tasks that show at time `now_ms`:
    /// not waiting past `now_ms`, and matching the filter query.
    pub fn visible_indices_at(&self, now_ms: i64) -> (v: Vec<usize>)
        ensures
            v@ == shown_indices(views(self.tasks@), self.filter_query@, now_ms, self.tasks@.len() as int),
    {
        let ghost ts = views(self.tasks@);
        let q = to_lower(self.filter_query.as_str());
        let qc = chars_of(q.as_str());
        let mut out: Vec<usize> = Vec::new();
        let mut i: usize = 0;
        while i < self.tasks.len()
            invariant
                ts == views(self.tasks@),
                qc@ == lowercase(self.filter_query@),
                i <= self.tasks@.len(),
                out@ == shown_indices(ts, self.filter_query@, now_ms, i as int),
            decreases self.tasks@.len() - i,
        {
            let t = &self.tasks[i];
            assert(ts[i as int] == t@);
            let waits = match &t.wait_until {
                Some(w) => w.millis > now_ms,
                None => false,
            };
            if !waits && task_matches(t, &qc) {
                out.push(i);
            }
            i = i + 1;
        }
        out
    }

    /// Indices into `self.tasks` that match the current filter query, leaving
    /// out tasks that wait until later than now (read from the clock).
    pub fn visible_indices(&self) -> (v: Vec<usize>)
        ensures
            exists|now: i64| v@ == shown_indices(views(self.tasks@), self.filter_query@, now, self.tasks@.len() as int),
    {
        let now = DateTime::now();
        self.visible_indices_at(now.timestamp_millis())
    }

    /// Recompute `visible_cache`.
    pub fn refresh_visible_cache(&mut self)
        ensures
            exists|now: i64| final(self).visible_cache@ == shown_indices(views(old(self).tasks@), old(self).filter_query@, now, old(self).tasks@.len() as int),
            final(self).tasks@ == old(self).tasks@,
            final(self).current == old(self).current,
            final(self).filter_query@ == old(self).filter_query@,
    {
        self.visible_cache = self.visible_indices();
    }

    /// Translate a visible-list cursor position to a real `tasks[]` index.
    pub fn real_index(&self, visible: usize) -> (r: Option<usize>)
        ensures
            r == if visible < self.visible_cache@.len() { Some(self.visible_cache@[visible as int]) } else { None::<usize> },
    {
        if visible < self.visible_cache.len() {
            Some(self.visible_cache[visible])
        } else {
            None
        }
    }

    /// The task under the cursor: the row `current` of the visible list.
    pub open spec fn current_index(&self) -> Option<usize> {
        match self.current {
            Some(i) => if i < self.visible_cache@.len() && self.visible_cache@[i as int] < self.tasks@.len() {
                Some(self.visible_cache@[i as int])
            } else {
                None
            },
            None => None,
        }
    }

    /// Returns a clone of the task at the current cursor position, if any.
    pub fn get_current_task(&self) -> (r: Option<Task>)
        ensures
            match self.current_index() {
                Some(ri) => r matches Some(t) && t@ == self.tasks@[ri as int]@,
                None => r is None,
            },
    {
        match self.current {
            None => None,
            Some(i) => match self.real_index(i) {
                None => None,
                Some(ri) => if ri < self.tasks.len() {
                    Some(self.tasks[ri].clone())
                } else {
                    None
                },
            },
        }
    }
}

} // verus!
