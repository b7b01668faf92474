//! What the task pane's keys do to its state: moving the cursor, peeling
//! back Esc, the Tab-selection, yanking, shifting priority, reordering, and
//! the order of the rows on screen.

use vstd::prelude::*;

use crate::database::models::{ORDER_GAP, ObjectId, Priority, Task, TaskStatus, TaskView, priority_text};
use crate::sorting::{SortKey, is_stable_order, key_seq, stable_order};
use crate::text::{chars_of, string_from_chars};
use crate::ui::app::WindowState;
use crate::ui::dates::{digits, push_digits, push_str};
use crate::ui::ordering::{
    above_defined, above_value, below_defined, below_value, order_above, order_below, orders,
};
use crate::ui::tasks::{SortOrder, TaskManager, views};

verus! {

/// Half a page for Ctrl+D / Ctrl+U.
pub const HALF_PAGE: usize = 10;

/// The keys of one frame that move the cursor (pressed this frame), with
/// the modifiers held.
#[derive(Clone, Copy, Debug, PartialEq, Eq, Structural)]
pub struct CursorKeys {
    pub j: bool,
    pub k: bool,
    pub down: bool,
    pub up: bool,
    pub d: bool,
    pub u: bool,
    pub g: bool,
    pub shift: bool,
    pub ctrl: bool,
    /// Some key was pressed this frame.
    pub any_key: bool,
}

/// The cursor row after moving `delta` rows from `cur`, kept within
/// `0..=last`; a list without a cursor puts it on the first row.
pub open spec fn stepped(cur: Option<usize>, delta: int, last: int) -> usize {
    match cur {
        Some(c) => if c + delta < 0 { 0 } else if c + delta > last { last as usize } else { (c + delta) as usize },
        None => 0,
    }
}

/// The last row index of a list of `n` rows (0 when empty).
pub open spec fn last_row(n: int) -> int {
    if n > 0 { n - 1 } else { 0 }
}

/// The cursor after this frame's keys: j/↓ and k/↑ step, Ctrl+D / Ctrl+U move
/// half a page, `G` goes to the last row and a second `g` to the first.
/// Each step counts from the cursor at the start of the frame; the last key
/// that moves the cursor wins.
pub open spec fn cursor_after(keys: CursorKeys, shift_jk: bool, n: int, cur: Option<usize>, pending_g: bool) -> Option<usize> {
    let last = last_row(n);
    let jk_ok = shift_jk || !keys.shift;
    let c1 = if (keys.j && jk_ok) || keys.down { Some(stepped(cur, 1, last)) } else { cur };
    let c2 = if (keys.k && jk_ok && !keys.shift) || keys.up { Some(stepped(cur, -1, last)) } else { c1 };
    let c3 = if keys.ctrl && keys.d { Some(stepped(cur, HALF_PAGE as int, last)) } else { c2 };
    let c4 = if keys.ctrl && keys.u { Some(stepped(cur, -(HALF_PAGE as int), last)) } else { c3 };
    if keys.g && (keys.shift || pending_g) {
        if n > 0 { Some((if keys.shift { last } else { 0 }) as usize) } else { None }
    } else {
        c4
    }
}

/// Whether a first `g` is waiting for its second after this frame.
pub open spec fn pending_after(keys: CursorKeys, pending_g: bool) -> bool {
    if keys.g {
        !keys.shift && !pending_g
    } else if keys.any_key {
        false
    } else {
        pending_g
    }
}

fn step(cur: Option<usize>, forward: bool, amount: usize, last: usize) -> (r: usize)
    ensures
        r == stepped(cur, if forward { amount as int } else { -(amount as int) }, last as int),
{
    match cur {
        None => 0,
        Some(c) => {
            if forward {
                if c >= last || last - c <= amount { last } else { c + amount }
            } else {
                if c <= amount { 0 } else if c - amount > last { last } else { c - amount }
            }
        },
    }
}

/// Keep the cursor on the list: none for an empty list, the last row past the end.
pub open spec fn clamped(cur: Option<usize>, n: int) -> Option<usize> {
    if n == 0 {
        None
    } else {
        match cur {
            Some(i) => if i >= n { Some((n - 1) as usize) } else { Some(i) },
            None => None,
        }
    }
}

/// Whether `ids` holds `id`.
pub open spec fn has_id(ids: Seq<ObjectId>, id: ObjectId) -> bool {
    exists|k: int| 0 <= k < ids.len() && ids[k] == id
}

/// No id occurs twice in `ids`.
pub open spec fn distinct_ids(ids: Seq<ObjectId>) -> bool {
    forall|a: int, b: int| 0 <= a < b < ids.len() ==> ids[a] != ids[b]
}

/// The real index of the task under the cursor, given the visible rows.
pub open spec fn cursor_row(tasks: Seq<Task>, visible: Seq<usize>, cur: Option<usize>) -> Option<usize> {
    match cur {
        Some(i) => if i < visible.len() && visible[i as int] < tasks.len() { Some(visible[i as int]) } else { None },
        None => None,
    }
}

/// The selected tasks among the visible rows, in list order.
pub open spec fn selected_rows(tasks: Seq<Task>, visible: Seq<usize>, sel: Seq<ObjectId>) -> Seq<TaskView>
    decreases visible.len(),
{
    if visible.len() == 0 {
        Seq::empty()
    } else {
        let rest = selected_rows(tasks, visible.drop_last(), sel);
        let ri = visible.last();
        if ri < tasks.len() && has_id(sel, tasks[ri as int].id) { rest.push(tasks[ri as int]@) } else { rest }
    }
}

/// The tasks a bulk action applies to: the selection in list order, or the
/// task under the cursor when nothing is selected.
pub open spec fn targets(tasks: Seq<Task>, visible: Seq<usize>, sel: Seq<ObjectId>, cur: Option<usize>) -> Seq<TaskView> {
    if sel.len() == 0 {
        match cursor_row(tasks, visible, cur) {
            Some(ri) => seq![tasks[ri as int]@],
            None => Seq::empty(),
        }
    } else {
        selected_rows(tasks, visible, sel)
    }
}

/// One step of priority: up from Low to Normal to Urgent, down the other way;
/// `None` at the top or bottom.
pub open spec fn priority_step(p: Priority, up: bool) -> Option<Priority> {
    match (p, up) {
        (Priority::Low, true) => Some(Priority::Normal),
        (Priority::Normal, true) => Some(Priority::Urgent),
        (Priority::Urgent, false) => Some(Priority::Normal),
        (Priority::Normal, false) => Some(Priority::Low),
        _ => None,
    }
}

/// The next priority up or down, if there is one.
pub fn next_priority(p: Priority, up: bool) -> (r: Option<Priority>)
    ensures
        r == priority_step(p, up),
{
    match (p, up) {
        (Priority::Low, true) => Some(Priority::Normal),
        (Priority::Normal, true) => Some(Priority::Urgent),
        (Priority::Urgent, false) => Some(Priority::Normal),
        (Priority::Normal, false) => Some(Priority::Low),
        _ => None,
    }
}

/// The priority changes `+` / `-` make on `ts`: each task that can move, in order.
pub open spec fn priority_changes(ts: Seq<TaskView>, up: bool) -> Seq<(ObjectId, Priority)>
    decreases ts.len(),
{
    if ts.len() == 0 {
        Seq::empty()
    } else {
        let rest = priority_changes(ts.drop_last(), up);
        match priority_step(ts.last().priority, up) {
            Some(p) => rest.push((ts.last().id, p)),
            None => rest,
        }
    }
}

/// The first index of a task with id `id` in `ts`, or -1.
pub open spec fn first_index(ts: Seq<TaskView>, id: ObjectId) -> int
    decreases ts.len(),
{
    if ts.len() == 0 {
        -1
    } else {
        let i = first_index(ts.drop_last(), id);
        if i >= 0 { i } else if ts.last().id == id { ts.len() - 1 } else { -1 }
    }
}

/// `ts` with each change applied, in order, to the first task with its id.
pub open spec fn with_priorities(ts: Seq<TaskView>, ups: Seq<(ObjectId, Priority)>) -> Seq<TaskView>
    decreases ups.len(),
{
    if ups.len() == 0 {
        ts
    } else {
        let prev = with_priorities(ts, ups.drop_last());
        let i = first_index(prev, ups.last().0);
        if i >= 0 { prev.update(i, TaskView { priority: ups.last().1, ..prev[i] }) } else { prev }
    }
}

/// The status-bar message of a yank of `ts`.
pub open spec fn yank_message(ts: Seq<TaskView>) -> Seq<char> {
    if ts.len() == 1 {
        "Yanked \""@ + ts[0].title + "\""@
    } else {
        "Yanked "@ + digits(ts.len()) + " tasks"@
    }
}

/// The status-bar message of a priority change on `ups`.
pub open spec fn priority_message(ups: Seq<(ObjectId, Priority)>, up: bool) -> Seq<char> {
    if ups.len() == 1 {
        "Priority: "@ + priority_text(ups[0].1)
    } else {
        "Priority "@ + (if up { "raised"@ } else { "lowered"@ }) + " on "@ + digits(ups.len()) + " tasks"@
    }
}

/// The key a task sorts by under `order`: due date (dated first, earliest
/// first), modification date (newest first), status (in progress, not
/// started, on hold, completed) or first tag; all equal under `Free`.
pub open spec fn row_key(t: TaskView, order: SortOrder) -> (int, Seq<char>) {
    match order {
        SortOrder::Free => (0, Seq::empty()),
        SortOrder::DueDate => (match t.due {
            Some(d) => d.millis as int,
            None => i64::MAX + 1,
        }, Seq::empty()),
        SortOrder::Modified => (-(t.modify_date.millis as int), Seq::empty()),
        SortOrder::Status => (match t.status {
            TaskStatus::InProgress => 0int,
            TaskStatus::NotStarted => 1,
            TaskStatus::OnHold => 2,
            TaskStatus::Completed => 3,
        }, Seq::empty()),
        SortOrder::Tags => (0, match t.tags {
            Some(tags) => if tags.len() > 0 { tags[0] } else { Seq::empty() },
            None => Seq::empty(),
        }),
    }
}

/// The visible rows that index a task, in visible order.
pub open spec fn valid_rows(n: int, visible: Seq<usize>) -> Seq<usize>
    decreases visible.len(),
{
    if visible.len() == 0 {
        Seq::empty()
    } else {
        let rest = valid_rows(n, visible.drop_last());
        if visible.last() < n { rest.push(visible.last()) } else { rest }
    }
}

/// `out` lists the rows `rows` in the stable order of their keys under `order`.
pub open spec fn sorted_rows(tasks: Seq<TaskView>, rows: Seq<usize>, order: SortOrder, out: Seq<usize>) -> bool {
    let keys = rows.map_values(|r: usize| row_key(tasks[r as int], order));
    exists|perm: Seq<usize>| {
        &&& is_stable_order(keys, perm)
        &&& out.len() == perm.len()
        &&& forall|k: int| 0 <= k < out.len() ==> out[k] == rows[perm[k] as int]
    }
}

proof fn lemma_increasing_from(perm: Seq<usize>, i: int)
    requires
        0 <= i < perm.len(),
        forall|a: int, b: int| 0 <= a < b < perm.len() ==> perm[a] < perm[b],
    ensures
        perm[i] >= i,
    decreases i,
{
    if i > 0 {
        lemma_increasing_from(perm, i - 1);
    }
}

proof fn lemma_increasing_to(perm: Seq<usize>, n: int, i: int)
    requires
        0 <= i < perm.len() == n,
        forall|a: int| 0 <= a < perm.len() ==> perm[a] < n,
        forall|a: int, b: int| 0 <= a < b < perm.len() ==> perm[a] < perm[b],
    ensures
        perm[i] <= i,
    decreases n - i,
{
    if i < n - 1 {
        lemma_increasing_to(perm, n, i + 1);
    }
}

/// Law: the sorted rows are the listed rows reordered, and each sort order
/// puts them as the list shows them:
/// - manual order keeps the rows as listed;
/// - by due date, earliest first, tasks without a due date last;
/// - by modification date, newest first;
/// - by status, in progress, then not started, then on hold, then completed;
/// - by tags, by the first tag (no tag counts as the empty text), in text order.
pub proof fn law_sorted_rows(ts: Seq<TaskView>, rows: Seq<usize>, order: SortOrder, out: Seq<usize>)
    requires
        sorted_rows(ts, rows, order, out),
    ensures
        out.len() == rows.len(),
        forall|x: usize| out.contains(x) <==> rows.contains(x),
        order == SortOrder::Free ==> out == rows,
        forall|a: int, b: int| #![trigger out[a], out[b]] 0 <= a < b < out.len() ==> {
            let ta = ts[out[a] as int];
            let tb = ts[out[b] as int];
            &&& order == SortOrder::Modified ==> ta.modify_date.millis >= tb.modify_date.millis
            &&& order == SortOrder::DueDate ==> (tb.due matches Some(db) ==> (ta.due matches Some(da) && da.millis <= db.millis))
            &&& order == SortOrder::Status ==> {
                &&& tb.status == TaskStatus::InProgress ==> ta.status == TaskStatus::InProgress
                &&& tb.status == TaskStatus::NotStarted ==> ta.status == TaskStatus::InProgress || ta.status == TaskStatus::NotStarted
                &&& tb.status == TaskStatus::OnHold ==> ta.status != TaskStatus::Completed
            }
            &&& order == SortOrder::Tags ==> !crate::sorting::seq_lt(
                match tb.tags { Some(t) => if t.len() > 0 { t[0] } else { Seq::empty() }, None => Seq::empty() },
                match ta.tags { Some(t) => if t.len() > 0 { t[0] } else { Seq::empty() }, None => Seq::empty() },
            )
        },
{
    let keys = rows.map_values(|r: usize| row_key(ts[r as int], order));
    let perm = choose|perm: Seq<usize>| {
        &&& is_stable_order(keys, perm)
        &&& out.len() == perm.len()
        &&& forall|k: int| 0 <= k < out.len() ==> out[k] == rows[perm[k] as int]
    };
    assert forall|x: usize| out.contains(x) implies rows.contains(x) by {
        let k = choose|k: int| 0 <= k < out.len() && out[k] == x;
        assert(rows[perm[k] as int] == x);
    }
    assert forall|x: usize| rows.contains(x) implies out.contains(x) by {
        let j = choose|j: int| 0 <= j < rows.len() && rows[j] == x;
        crate::sorting::lemma_distinct_below_covers(perm, keys.len() as int);
        assert(crate::sorting::in_list(perm, j));
        let k = choose|k: int| 0 <= k < perm.len() && perm[k] == j;
        assert(out[k] == x);
    }
    assert forall|a: int, b: int| #![trigger out[a], out[b]] 0 <= a < b < out.len() implies {
        let ta = ts[out[a] as int];
        let tb = ts[out[b] as int];
        &&& order == SortOrder::Modified ==> ta.modify_date.millis >= tb.modify_date.millis
        &&& order == SortOrder::DueDate ==> (tb.due matches Some(db) ==> (ta.due matches Some(da) && da.millis <= db.millis))
        &&& order == SortOrder::Status ==> {
            &&& tb.status == TaskStatus::InProgress ==> ta.status == TaskStatus::InProgress
            &&& tb.status == TaskStatus::NotStarted ==> ta.status == TaskStatus::InProgress || ta.status == TaskStatus::NotStarted
            &&& tb.status == TaskStatus::OnHold ==> ta.status != TaskStatus::Completed
        }
        &&& order == SortOrder::Tags ==> !crate::sorting::seq_lt(
            match tb.tags { Some(t) => if t.len() > 0 { t[0] } else { Seq::empty() }, None => Seq::empty() },
            match ta.tags { Some(t) => if t.len() > 0 { t[0] } else { Seq::empty() }, None => Seq::empty() },
        )
    } by {
        let ka = keys[perm[a] as int];
        let kb = keys[perm[b] as int];
        assert(crate::sorting::before(keys, perm[a] as int, perm[b] as int));
        assert(ka == row_key(ts[out[a] as int], order));
        assert(kb == row_key(ts[out[b] as int], order));
        crate::sorting::lemma_key_lt_facts(ka, kb, kb);
        if crate::sorting::key_lt(ka, kb) {
        } else {
            assert(ka == kb);
            crate::sorting::lemma_seq_lt_irreflexive(ka.1);
        }
        if order == SortOrder::Tags && crate::sorting::key_lt(ka, kb) {
            crate::sorting::lemma_key_lt_facts(kb, ka, kb);
        }
    }
    if order == SortOrder::Free {
        assert forall|a: int, b: int| 0 <= a < b < perm.len() implies perm[a] < perm[b] by {
            assert(crate::sorting::before(keys, perm[a] as int, perm[b] as int));
            assert(keys[perm[a] as int] == (0int, Seq::<char>::empty()));
            assert(keys[perm[b] as int] == (0int, Seq::<char>::empty()));
            crate::sorting::lemma_seq_lt_irreflexive(Seq::<char>::empty());
        }
        assert forall|k: int| 0 <= k < out.len() implies out[k] == rows[k] by {
            lemma_increasing_from(perm, k);
            lemma_increasing_to(perm, keys.len() as int, k);
        }
        assert(out =~= rows);
    }
}

fn row_sort_key(t: &Task, order: SortOrder) -> (k: SortKey)
    ensures
        k.spec_key() == row_key(t@, order),
{
    match order {
        SortOrder::Free => SortKey { num: 0, text: Vec::new() },
        SortOrder::DueDate => SortKey {
            num: match t.due {
                Some(d) => d.millis as i128,
                None => 9223372036854775808i128,
            },
            text: Vec::new(),
        },
        SortOrder::Modified => SortKey { num: -(t.modify_date.millis as i128), text: Vec::new() },
        SortOrder::Status => SortKey {
            num: match t.status {
                TaskStatus::InProgress => 0,
                TaskStatus::NotStarted => 1,
                TaskStatus::OnHold => 2,
                TaskStatus::Completed => 3,
            },
            text: Vec::new(),
        },
        SortOrder::Tags => {
            let text = match &t.tags {
                Some(tags) => if tags.len() > 0 {
                    assert(crate::database::models::str_views(tags@)[0] == tags@[0]@);
                    chars_of(tags[0].as_str())
                } else {
                    Vec::new()
                },
                None => Vec::new(),
            };
            SortKey { num: 0, text }
        },
    }
}

impl TaskManager {
    /// Keep the cursor on the visible list of `vis_len` rows.
    pub fn clamp_cursor(&mut self, vis_len: usize)
        ensures
            *final(self) == (TaskManager { current: clamped(old(self).current, vis_len as int), ..*old(self) }),
    {
        self.current = if vis_len == 0 {
            None
        } else {
            match self.current {
                Some(i) => if i >= vis_len { Some(vis_len - 1) } else { Some(i) },
                None => None,
            }
        };
    }

    /// Cursor movement shared by Normal and Visual mode: j/k and ↓/↑ step, `gg` / `G`
    /// jump to top / bottom, Ctrl+D / Ctrl+U move half a page. `shift_jk` lets plain
    /// j/k also fire with Shift held (Normal); Visual reserves Shift+J/K for reordering.
    pub fn move_cursor(&mut self, keys: &CursorKeys, vis_len: usize, shift_jk: bool)
        ensures
            *final(self) == (TaskManager {
                current: cursor_after(*keys, shift_jk, vis_len as int, old(self).current, old(self).pending_g),
                pending_g: pending_after(*keys, old(self).pending_g),
                ..*old(self)
            }),
    {
        let last = if vis_len > 0 { vis_len - 1 } else { 0 };
        let cur = self.current;
        let jk_ok = shift_jk || !keys.shift;
        let c1 = if (keys.j && jk_ok) || keys.down { Some(step(cur, true, 1, last)) } else { cur };
        let c2 = if (keys.k && jk_ok && !keys.shift) || keys.up { Some(step(cur, false, 1, last)) } else { c1 };
        let c3 = if keys.ctrl && keys.d { Some(step(cur, true, HALF_PAGE, last)) } else { c2 };
        let c4 = if keys.ctrl && keys.u { Some(step(cur, false, HALF_PAGE, last)) } else { c3 };
        if keys.g {
            if keys.shift {
                self.current = if vis_len > 0 { Some(last) } else { None };
                self.pending_g = false;
            } else if self.pending_g {
                self.current = if vis_len > 0 { Some(0) } else { None };
                self.pending_g = false;
            } else {
                self.current = c4;
                self.pending_g = true;
            }
        } else {
            self.current = c4;
            if keys.any_key {
                self.pending_g = false;
            }
        }
    }

    /// Esc in the task list peels back one layer per press: the Tab-selection,
    /// then the filter, then — with nothing left to clear — back to the Projects pane.
    pub fn escape(&mut self, window: &mut WindowState)
        ensures
            old(self).selected_tasks@.len() > 0 ==> final(self).selected_tasks@.len() == 0
                && final(self).filter_query == old(self).filter_query && *final(window) == *old(window),
            old(self).selected_tasks@.len() == 0 && old(self).filter_query@.len() > 0
                ==> final(self).selected_tasks == old(self).selected_tasks && final(self).filter_query@.len() == 0
                && *final(window) == *old(window),
            old(self).selected_tasks@.len() == 0 && old(self).filter_query@.len() == 0
                ==> *final(self) == *old(self) && *final(window) == WindowState::Projects,
            *final(self) == (TaskManager {
                selected_tasks: final(self).selected_tasks,
                filter_query: final(self).filter_query,
                ..*old(self)
            }),
    {
        if self.selected_tasks.len() > 0 {
            self.selected_tasks.clear();
        } else if self.filter_query.unicode_len() > 0 {
            self.filter_query = String::new();
        } else {
            *window = WindowState::Projects;
        }
    }

    /// The real index of the task under the cursor, given the visible rows.
    pub fn cursor_task_index(&self, visible: &[usize]) -> (r: Option<usize>)
        ensures
            r == cursor_row(self.tasks@, visible@, self.current),
    {
        match self.current {
            Some(i) => if i < visible.len() && visible[i] < self.tasks.len() { Some(visible[i]) } else { None },
            None => None,
        }
    }

    /// Tab: toggle the task under the cursor in or out of the selection (the
    /// cursor does not move).
    pub fn toggle_selected(&mut self, visible: &[usize])
        requires
            distinct_ids(old(self).selected_tasks@),
        ensures
            distinct_ids(final(self).selected_tasks@),
            *final(self) == (TaskManager { selected_tasks: final(self).selected_tasks, ..*old(self) }),
            match cursor_row(old(self).tasks@, visible@, old(self).current) {
                None => *final(self) == *old(self),
                Some(ri) => forall|id: ObjectId| #[trigger] has_id(final(self).selected_tasks@, id)
                    <==> (has_id(old(self).selected_tasks@, id) != (id == old(self).tasks@[ri as int].id)),
            },
    {
        match self.cursor_task_index(visible) {
            None => {},
            Some(ri) => {
                let id = self.tasks[ri].id;
                let mut k: usize = 0;
                let mut found: Option<usize> = None;
                while k < self.selected_tasks.len() && found.is_none()
                    invariant
                        k <= self.selected_tasks@.len(),
                        found matches Some(m) ==> m < k && self.selected_tasks@[m as int] == id,
                        found is None ==> forall|m: int| 0 <= m < k ==> self.selected_tasks@[m] != id,
                    decreases self.selected_tasks@.len() - k,
                {
                    if self.selected_tasks[k] == id {
                        found = Some(k);
                    }
                    k = k + 1;
                }
                let ghost before = self.selected_tasks@;
                match found {
                    Some(m) => {
                        self.selected_tasks.remove(m);
                        proof {
                            let after = before.remove(m as int);
                            assert forall|x: ObjectId| #[trigger] has_id(after, x) <==> (has_id(before, x) != (x == id)) by {
                                if has_id(after, x) {
                                    let w = choose|w: int| 0 <= w < after.len() && after[w] == x;
                                    if w < m { assert(before[w] == x); } else { assert(before[w + 1] == x); }
                                }
                                if has_id(before, x) && x != id {
                                    let w = choose|w: int| 0 <= w < before.len() && before[w] == x;
                                    if w < m { assert(after[w] == x); } else { assert(after[w - 1] == x); }
                                }
                                if x == id && has_id(after, x) {
                                    let w = choose|w: int| 0 <= w < after.len() && after[w] == x;
                                    if w < m { assert(before[w] == before[m as int]); } else { assert(before[w + 1] == before[m as int]); }
                                }
                            }
                        }
                    },
                    None => {
                        self.selected_tasks.push(id);
                        proof {
                            let after = before.push(id);
                            assert forall|x: ObjectId| #[trigger] has_id(after, x) <==> (has_id(before, x) != (x == id)) by {
                                if has_id(after, x) {
                                    let w = choose|w: int| 0 <= w < after.len() && after[w] == x;
                                    if w < before.len() { assert(before[w] == x); }
                                }
                                if has_id(before, x) {
                                    let w = choose|w: int| 0 <= w < before.len() && before[w] == x;
                                    assert(after[w] == x);
                                }
                                if x == id {
                                    assert(after[before.len() as int] == x);
                                }
                            }
                        }
                    },
                }
            },
        }
    }

    /// Whether `id` is selected.
    fn is_selected(&self, id: ObjectId) -> (b: bool)
        ensures
            b == has_id(self.selected_tasks@, id),
    {
        let mut k: usize = 0;
        while k < self.selected_tasks.len()
            invariant
                k <= self.selected_tasks@.len(),
                forall|m: int| 0 <= m < k ==> self.selected_tasks@[m] != id,
            decreases self.selected_tasks@.len() - k,
        {
            if self.selected_tasks[k] == id {
                return true;
            }
            k = k + 1;
        }
        false
    }

    /// Tasks the next bulk action applies to: the Tab-selection in list order, or
    /// just the task under the cursor when nothing is selected.
    pub fn action_targets(&self, visible: &[usize]) -> (v: Vec<Task>)
        ensures
            views(v@) == targets(self.tasks@, visible@, self.selected_tasks@, self.current),
    {
        if self.selected_tasks.len() == 0 {
            match self.cursor_task_index(visible) {
                Some(ri) => {
                    let v = vec![self.tasks[ri].clone()];
                    assert(views(v@) =~= seq![self.tasks@[ri as int]@]);
                    v
                },
                None => {
                    let v: Vec<Task> = Vec::new();
                    assert(views(v@) =~= Seq::<TaskView>::empty());
                    v
                },
            }
        } else {
            let mut out: Vec<Task> = Vec::new();
            let mut i: usize = 0;
            assert(visible@.subrange(0, 0) =~= Seq::<usize>::empty());
            assert(views(out@) =~= Seq::<TaskView>::empty());
            while i < visible.len()
                invariant
                    i <= visible@.len(),
                    views(out@) == selected_rows(self.tasks@, visible@.subrange(0, i as int), self.selected_tasks@),
                decreases visible@.len() - i,
            {
                assert(visible@.subrange(0, i + 1).drop_last() =~= visible@.subrange(0, i as int));
                assert(visible@.subrange(0, i + 1).last() == visible@[i as int]);
                let ri = visible[i];
                if ri < self.tasks.len() && self.is_selected(self.tasks[ri].id) {
                    let ghost before = views(out@);
                    out.push(self.tasks[ri].clone());
                    assert(views(out@) =~= before.push(self.tasks@[ri as int]@));
                }
                i = i + 1;
            }
            assert(visible@.subrange(0, visible@.len() as int) =~= visible@);
            out
        }
    }

    /// `y`: copy the Tab-selection (or the current task) into the clipboard and
    /// clear the selection. Returns the status-bar message; nothing changes and
    /// `None` comes back when there is nothing to yank.
    pub fn yank(&mut self, visible: &[usize]) -> (msg: Option<String>)
        ensures
            ({
                let ts = targets(old(self).tasks@, visible@, old(self).selected_tasks@, old(self).current);
                &&& ts.len() == 0 ==> msg is None && *final(self) == *old(self)
                &&& ts.len() > 0 ==> (msg matches Some(m) && m@ == yank_message(ts)
                    && views(final(self).clipboard@) == ts && final(self).selected_tasks@.len() == 0)
            }),
            *final(self) == (TaskManager {
                clipboard: final(self).clipboard,
                selected_tasks: final(self).selected_tasks,
                ..*old(self)
            }),
    {
        let tasks = self.action_targets(visible);
        if tasks.len() == 0 {
            return None;
        }
        let mut out: Vec<char> = Vec::new();
        proof {
            reveal_strlit("Yanked \"");
            reveal_strlit("\"");
            reveal_strlit("Yanked ");
            reveal_strlit(" tasks");
        }
        if tasks.len() == 1 {
            push_str(&mut out, "Yanked \"");
            push_str(&mut out, tasks[0].title.as_str());
            push_str(&mut out, "\"");
            assert(views(tasks@)[0] == tasks@[0]@);
        } else {
            push_str(&mut out, "Yanked ");
            push_digits(&mut out, tasks.len() as u64);
            push_str(&mut out, " tasks");
        }
        assert(out@ =~= yank_message(views(tasks@)));
        self.clipboard = tasks;
        self.selected_tasks.clear();
        Some(string_from_chars(out.as_slice()))
    }

    /// Index of the first task with id `id`.
    fn first_task_index(&self, id: ObjectId) -> (r: Option<usize>)
        ensures
            first_index(views(self.tasks@), id) < 0 ==> r is None,
            first_index(views(self.tasks@), id) >= 0 ==> r == Some(first_index(views(self.tasks@), id) as usize),
    {
        let ghost ts = views(self.tasks@);
        let mut i: usize = 0;
        assert(ts.subrange(0, 0) =~= Seq::<TaskView>::empty());
        while i < self.tasks.len()
            invariant
                ts == views(self.tasks@),
                i <= ts.len(),
                first_index(ts.subrange(0, i as int), id) == -1,
                forall|m: int| 0 <= m < i ==> ts[m].id != id,
            decreases ts.len() - i,
        {
            assert(ts.subrange(0, i + 1).drop_last() =~= ts.subrange(0, i as int));
            if self.tasks[i].id == id {
                proof {
                    lemma_first_index_prefix(ts, id, i as int);
                }
                return Some(i);
            }
            i = i + 1;
        }
        assert(ts.subrange(0, ts.len() as int) =~= ts);
        None
    }

    /// `+` / `-`: raise / lower the priority of the Tab-selection (or the
    /// current task) in the local list. Returns the changes to write (each
    /// task's id and new priority, in list order) and the status-bar message;
    /// nothing changes where no task can move.
    pub fn shift_priority(&mut self, visible: &[usize], up: bool) -> (r: (Vec<(ObjectId, Priority)>, Option<String>))
        ensures
            ({
                let ups = priority_changes(targets(old(self).tasks@, visible@, old(self).selected_tasks@, old(self).current), up);
                &&& r.0@ == ups
                &&& ups.len() == 0 ==> r.1 is None && *final(self) == *old(self)
                &&& ups.len() > 0 ==> (r.1 matches Some(m) && m@ == priority_message(ups, up)
                    && views(final(self).tasks@) == with_priorities(views(old(self).tasks@), ups))
            }),
            *final(self) == (TaskManager { tasks: final(self).tasks, ..*old(self) }),
    {
        let ts = self.action_targets(visible);
        let ghost tv = views(ts@);
        let mut changed: Vec<(ObjectId, Priority)> = Vec::new();
        let mut i: usize = 0;
        assert(tv.subrange(0, 0) =~= Seq::<TaskView>::empty());
        while i < ts.len()
            invariant
                tv == views(ts@),
                i <= tv.len(),
                changed@ == priority_changes(tv.subrange(0, i as int), up),
            decreases tv.len() - i,
        {
            assert(tv.subrange(0, i + 1).drop_last() =~= tv.subrange(0, i as int));
            assert(tv.subrange(0, i + 1).last() == ts@[i as int]@);
            match next_priority(ts[i].priority, up) {
                Some(p) => changed.push((ts[i].id, p)),
                None => {},
            }
            i = i + 1;
        }
        assert(tv.subrange(0, tv.len() as int) =~= tv);
        if changed.len() == 0 {
            return (changed, None);
        }
        let ghost t0 = views(self.tasks@);
        let mut k: usize = 0;
        assert(changed@.subrange(0, 0) =~= Seq::<(ObjectId, Priority)>::empty());
        while k < changed.len()
            invariant
                k <= changed@.len(),
                views(self.tasks@) == with_priorities(t0, changed@.subrange(0, k as int)),
                *self == (TaskManager { tasks: self.tasks, ..*old(self) }),
            decreases changed@.len() - k,
        {
            let (id, p) = changed[k];
            assert(changed@.subrange(0, k + 1).drop_last() =~= changed@.subrange(0, k as int));
            assert(changed@.subrange(0, k + 1).last() == changed@[k as int]);
            proof {
                lemma_first_index_bound(views(self.tasks@), id);
            }
            let ghost prev = views(self.tasks@);
            let n_tasks = self.tasks.len();
            let found = self.first_task_index(id);
            proof {
                lemma_first_index_bound(prev, id);
                assert(prev.len() == n_tasks);
            }
            match found {
                Some(j) => {
                    let mut t = self.tasks[j].clone();
                    t.priority = p;
                    self.tasks.set(j, t);
                    assert(views(self.tasks@) =~= prev.update(j as int, TaskView { priority: p, ..prev[j as int] }));
                    assert(changed@[k as int] == (id, p));
                    assert(views(self.tasks@) == with_priorities(t0, changed@.subrange(0, k + 1)));
                },
                None => {
                    assert(views(self.tasks@) == with_priorities(t0, changed@.subrange(0, k + 1)));
                },
            }
            k = k + 1;
        }
        assert(changed@.subrange(0, changed@.len() as int) =~= changed@);
        let mut out: Vec<char> = Vec::new();
        proof {
            reveal_strlit("Priority: ");
            reveal_strlit("Priority ");
            reveal_strlit("raised");
            reveal_strlit("lowered");
            reveal_strlit(" on ");
            reveal_strlit(" tasks");
        }
        if changed.len() == 1 {
            push_str(&mut out, "Priority: ");
            push_str(&mut out, changed[0].1.label());
        } else {
            push_str(&mut out, "Priority ");
            push_str(&mut out, if up { "raised" } else { "lowered" });
            push_str(&mut out, " on ");
            push_digits(&mut out, changed.len() as u64);
            push_str(&mut out, " tasks");
        }
        assert(out@ =~= priority_message(changed@, up));
        (changed, Some(string_from_chars(out.as_slice())))
    }

    /// Visual mode Shift+J / Shift+K: swap the orders of rows `a` and `b` and
    /// the rows themselves. Returns each task's id with its new order, to
    /// write; nothing happens when `b` is past the end.
    pub fn swap_tasks(&mut self, a: usize, b: usize) -> (r: Option<((ObjectId, u64), (ObjectId, u64))>)
        requires
            a < old(self).tasks@.len(),
        ensures
            b >= old(self).tasks@.len() ==> r is None && final(self).tasks@ == old(self).tasks@,
            b < old(self).tasks@.len() ==> {
                let ta = old(self).tasks@[a as int]@;
                let tb = old(self).tasks@[b as int]@;
                &&& r == Some(((ta.id, tb.order), (tb.id, ta.order)))
                &&& views(final(self).tasks@) == views(old(self).tasks@)
                        .update(a as int, TaskView { order: ta.order, ..tb })
                        .update(b as int, TaskView { order: tb.order, ..ta })
            },
            *final(self) == (TaskManager { tasks: final(self).tasks, ..*old(self) }),
    {
        if b >= self.tasks.len() {
            return None;
        }
        let ghost t0 = views(self.tasks@);
        let mut ta = self.tasks[a].clone();
        let mut tb = self.tasks[b].clone();
        let a_o = ta.order;
        let b_o = tb.order;
        let ups = ((ta.id, b_o), (tb.id, a_o));
        ta.order = b_o;
        tb.order = a_o;
        self.tasks.set(a, tb);
        self.tasks.set(b, ta);
        proof {
            assert(views(self.tasks@) =~= t0.update(a as int, TaskView { order: t0[a as int].order, ..t0[b as int] })
                .update(b as int, TaskView { order: t0[b as int].order, ..t0[a as int] }));
        }
        Some(ups)
    }

    /// The order a new task gets with `o` (below the cursor) or `O` (above):
    /// between the cursor row and its neighbour where there is room; with no
    /// cursor, one gap after the last row.
    pub fn new_task_order(&self, visible: &[usize], above: bool) -> (o: u64)
        requires
            new_order_defined(self.tasks@, visible@, self.current, above),
        ensures
            o == new_order_value(self.tasks@, visible@, self.current, above),
    {
        reveal(new_order_value);
        reveal(new_order_defined);
        let ghost os = orders(self.tasks@);
        let n = self.tasks.len();
        match self.current {
            Some(vis_idx) => {
                let r0 = if vis_idx < visible.len() { visible[vis_idx] } else { 0 };
                let cap = if n > 0 { n - 1 } else { 0 };
                let real_idx = if r0 < cap { r0 } else { cap };
                if n == 0 {
                    ORDER_GAP
                } else if above {
                    order_above(self.tasks.as_slice(), real_idx)
                } else {
                    order_below(self.tasks.as_slice(), real_idx)
                }
            },
            None => {
                if n == 0 {
                    ORDER_GAP
                } else {
                    assert(os.last() == self.tasks@[n - 1].order);
                    self.tasks[n - 1].order + ORDER_GAP
                }
            },
        }
    }

    /// The rows on screen, in the order `sort_order` puts them: the visible
    /// rows that index a task, stably sorted by their key.
    pub fn sorted_visible(&self, visible: &[usize]) -> (out: Vec<usize>)
        ensures
            sorted_rows(views(self.tasks@), valid_rows(self.tasks@.len() as int, visible@), self.sort_order, out@),
    {
        let ghost ts = views(self.tasks@);
        let mut rows: Vec<usize> = Vec::new();
        let mut keys: Vec<SortKey> = Vec::new();
        let mut i: usize = 0;
        assert(visible@.subrange(0, 0) =~= Seq::<usize>::empty());
        while i < visible.len()
            invariant
                ts == views(self.tasks@),
                i <= visible@.len(),
                rows@ == valid_rows(self.tasks@.len() as int, visible@.subrange(0, i as int)),
                keys@.len() == rows@.len(),
                forall|m: int| 0 <= m < rows@.len() ==> rows@[m] < ts.len(),
                forall|m: int| 0 <= m < rows@.len() ==> (#[trigger] keys@[m]).spec_key() == row_key(ts[rows@[m] as int], self.sort_order),
            decreases visible@.len() - i,
        {
            assert(visible@.subrange(0, i + 1).drop_last() =~= visible@.subrange(0, i as int));
            assert(visible@.subrange(0, i + 1).last() == visible@[i as int]);
            let ri = visible[i];
            if ri < self.tasks.len() {
                assert(ts[ri as int] == self.tasks@[ri as int]@);
                keys.push(row_sort_key(&self.tasks[ri], self.sort_order));
                rows.push(ri);
            }
            i = i + 1;
        }
        assert(visible@.subrange(0, visible@.len() as int) =~= visible@);
        let perm = stable_order(&keys);
        let ghost rk = rows@.map_values(|r: usize| row_key(ts[r as int], self.sort_order));
        assert(key_seq(keys@) =~= rk);
        let mut out: Vec<usize> = Vec::new();
        let mut x: usize = 0;
        while x < perm.len()
            invariant
                x <= perm@.len(),
                perm@.len() == rows@.len(),
                forall|q: int| 0 <= q < perm@.len() ==> perm@[q] < rows@.len(),
                out@.len() == x,
                forall|q: int| 0 <= q < x ==> out@[q] == rows@[perm@[q] as int],
            decreases perm@.len() - x,
        {
            out.push(rows[perm[x]]);
            x = x + 1;
        }
        assert(is_stable_order(rk, perm@));
        out
    }
}

/// `new_task_order` runs without overflow.
#[verifier::opaque]
pub open spec fn new_order_defined(tasks: Seq<Task>, visible: Seq<usize>, cur: Option<usize>, above: bool) -> bool {
    let os = orders(tasks);
    let ri = new_row_index(tasks.len() as int, visible, cur);
    &&& cur is Some && os.len() > 0 && above ==> above_defined(os, ri)
    &&& cur is Some && os.len() > 0 && !above ==> below_defined(os, ri)
    &&& cur is None && os.len() > 0 ==> os.last() + ORDER_GAP <= u64::MAX
}

/// The order `o` (below) or `O` (above) gives a new task: next to the
/// cursor's row, or one gap after the last row when there is no cursor.
#[verifier::opaque]
pub open spec fn new_order_value(tasks: Seq<Task>, visible: Seq<usize>, cur: Option<usize>, above: bool) -> int {
    let os = orders(tasks);
    let ri = new_row_index(tasks.len() as int, visible, cur);
    if cur is Some {
        if os.len() == 0 { ORDER_GAP as int } else if above { above_value(os, ri) } else { below_value(os, ri) }
    } else {
        if os.len() == 0 { ORDER_GAP as int } else { os.last() + ORDER_GAP }
    }
}

/// The row an `o` / `O` places the new task next to: the cursor's visible
/// row (or row 0), kept within the list.
pub open spec fn new_row_index(n: int, visible: Seq<usize>, cur: Option<usize>) -> int {
    let r0: int = match cur {
        Some(i) => if i < visible.len() { visible[i as int] as int } else { 0 },
        None => 0,
    };
    let cap = if n > 0 { n - 1 } else { 0 };
    if r0 < cap { r0 } else { cap }
}

proof fn lemma_first_index_prefix(ts: Seq<TaskView>, id: ObjectId, i: int)
    requires
        0 <= i < ts.len(),
        ts[i].id == id,
        forall|m: int| 0 <= m < i ==> ts[m].id != id,
    ensures
        first_index(ts, id) == i,
    decreases ts.len(),
{
    if ts.len() - 1 > i {
        lemma_first_index_prefix(ts.drop_last(), id, i);
    } else {
        lemma_first_index_none(ts.drop_last(), id);
    }
}

proof fn lemma_first_index_bound(ts: Seq<TaskView>, id: ObjectId)
    ensures
        -1 <= first_index(ts, id) < ts.len(),
        first_index(ts, id) >= 0 ==> ts[first_index(ts, id)].id == id,
    decreases ts.len(),
{
    if ts.len() > 0 {
        lemma_first_index_bound(ts.drop_last(), id);
    }
}

proof fn lemma_first_index_none(ts: Seq<TaskView>, id: ObjectId)
    requires
        forall|m: int| 0 <= m < ts.len() ==> ts[m].id != id,
    ensures
        first_index(ts, id) == -1,
    decreases ts.len(),
{
    if ts.len() > 0 {
        lemma_first_index_none(ts.drop_last(), id);
    }
}

} // verus!
