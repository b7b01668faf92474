//! Tag completion in the task editor: the tags typed so far, the ranked
//! suggestions for the one being typed, and the menu's keys.

use vstd::prelude::*;

use crate::database::models::str_views;
use crate::text::{chars_of, lowercase, string_from_chars, to_lower, trim, trim_chars};
use crate::ui::dates::push_str;
use crate::ui::fuzzy::{is_ranking, rank, views};
use crate::ui::tasks::{TaskManager, TaskWriter, split_commas};

verus! {

/// How many suggestions the menu shows at most.
pub const MAX_SUGGESTIONS: usize = 5;

/// The tag being typed: the text after the last comma, trimmed and lowercased.
pub open spec fn partial_tag(buf: Seq<char>) -> Seq<char> {
    lowercase(trim(split_commas(buf).last()))
}

/// A known tag `k` was typed already: an earlier piece is `k` (ignoring case
/// and surrounding blanks).
pub open spec fn already_typed(buf: Seq<char>, k: Seq<char>) -> bool {
    let pieces = split_commas(buf);
    exists|i: int| 0 <= i < pieces.len() - 1 && lowercase(trim(#[trigger] pieces[i])) == lowercase(k)
}

/// The known tags not typed yet, in order.
pub open spec fn candidates(buf: Seq<char>, known: Seq<Seq<char>>) -> Seq<Seq<char>>
    decreases known.len(),
{
    if known.len() == 0 {
        Seq::empty()
    } else {
        let rest = candidates(buf, known.drop_last());
        if already_typed(buf, known.last()) { rest } else { rest.push(known.last()) }
    }
}

/// `out` is the menu for `buf`: nothing while no tag is being typed or no tag
/// is known; otherwise the not-yet-typed known tags that fuzzy-match the tag
/// being typed, best first, at most `MAX_SUGGESTIONS`.
pub open spec fn is_suggestion_list(buf: Seq<char>, known: Seq<Seq<char>>, out: Seq<Seq<char>>) -> bool {
    if partial_tag(buf).len() == 0 || known.len() == 0 {
        out.len() == 0
    } else {
        let cands = candidates(buf, known);
        exists|idx: Seq<int>| {
            &&& is_ranking(partial_tag(buf), cands, idx)
            &&& out.len() == if idx.len() < MAX_SUGGESTIONS { idx.len() } else { MAX_SUGGESTIONS as nat }
            &&& forall|k: int| 0 <= k < out.len() ==> out[k] == cands[idx[k]]
        }
    }
}

/// The pieces of `buf` before the last comma, each trimmed and lowercased.
fn typed_pieces(buf: &Vec<char>) -> (v: Vec<String>)
    ensures
        v@.len() == split_commas(buf@).len() - 1,
        forall|i: int| 0 <= i < v@.len() ==> (#[trigger] v@[i])@ == lowercase(trim(split_commas(buf@)[i])),
{
    let ghost s = buf@;
    let mut out: Vec<String> = Vec::new();
    let mut cur: Vec<char> = Vec::new();
    let mut i: usize = 0;
    proof {
        assert(s.subrange(0, 0) =~= Seq::<char>::empty());
    }
    while i < buf.len()
        invariant
            buf@ == s,
            i <= s.len(),
            split_commas(s.subrange(0, i as int)).len() >= 1,
            out@.len() == split_commas(s.subrange(0, i as int)).len() - 1,
            forall|k: int| 0 <= k < out@.len() ==> (#[trigger] out@[k])@ == lowercase(trim(split_commas(s.subrange(0, i as int))[k])),
            cur@ == split_commas(s.subrange(0, i as int)).last(),
        decreases s.len() - i,
    {
        let ghost pre = s.subrange(0, i as int);
        let ghost next = s.subrange(0, i + 1);
        assert(next.drop_last() =~= pre);
        assert(next.last() == s[i as int]);
        let ghost sp = split_commas(pre);
        if buf[i] == ',' {
            let t = trim_chars(cur.as_slice());
            let ts = string_from_chars(t.as_slice());
            let low = to_lower(ts.as_str());
            out.push(low);
            cur = Vec::new();
            assert(cur@ =~= Seq::<char>::empty());
            proof {
                assert(split_commas(next) == sp.push(Seq::<char>::empty()));
            }
        } else {
            cur.push(buf[i]);
        }
        i = i + 1;
    }
    assert(s.subrange(0, s.len() as int) =~= s);
    out
}

/// Whether `k` was typed already, given the typed pieces.
fn is_typed(typed: &Vec<String>, k: &String) -> (b: bool)
    ensures
        b == exists|i: int| 0 <= i < typed@.len() && (#[trigger] typed@[i])@ == lowercase(k@),
{
    let lk = to_lower(k.as_str());
    let mut i: usize = 0;
    while i < typed.len()
        invariant
            i <= typed@.len(),
            lk@ == lowercase(k@),
            forall|m: int| 0 <= m < i ==> (#[trigger] typed@[m])@ != lowercase(k@),
        decreases typed@.len() - i,
    {
        if typed[i] == lk {
            return true;
        }
        i = i + 1;
    }
    false
}

/// The suggestions for the tag being typed in `buf`, from the `known` tags.
pub fn tag_suggestions(buf: &String, known: &Vec<String>) -> (out: Vec<String>)
    ensures
        is_suggestion_list(buf@, str_views(known@), str_views(out@)),
{
    let chars = chars_of(buf.as_str());
    let ghost s = buf@;
    let pieces = typed_pieces(&chars);
    // The last piece: the characters after the last comma.
    let mut start: usize = chars.len();
    while start > 0 && chars[start - 1] != ','
        invariant
            start <= chars@.len(),
            chars@ == s,
            forall|k: int| start <= k < s.len() ==> s[k] != ',',
        decreases start,
    {
        start = start - 1;
    }
    let mut last: Vec<char> = Vec::new();
    let mut k: usize = start;
    while k < chars.len()
        invariant
            start <= k <= chars@.len(),
            chars@ == s,
            last@ == s.subrange(start as int, k as int),
        decreases chars@.len() - k,
    {
        last.push(chars[k]);
        assert(s.subrange(start as int, k + 1) =~= s.subrange(start as int, k as int).push(s[k as int]));
        k = k + 1;
    }
    proof {
        lemma_last_piece(s, start as int);
    }
    let t = trim_chars(last.as_slice());
    let ts = string_from_chars(t.as_slice());
    let partial = to_lower(ts.as_str());
    if partial.unicode_len() == 0 || known.len() == 0 {
        let v: Vec<String> = Vec::new();
        assert(str_views(v@) =~= Seq::<Seq<char>>::empty());
        return v;
    }
    // The known tags not typed yet.
    let ghost kv = str_views(known@);
    let mut cands: Vec<String> = Vec::new();
    let mut i: usize = 0;
    assert(kv.subrange(0, 0) =~= Seq::<Seq<char>>::empty());
    assert(str_views(cands@) =~= Seq::<Seq<char>>::empty());
    while i < known.len()
        invariant
            kv == str_views(known@),
            buf@ == s,
            i <= kv.len(),
            pieces@.len() == split_commas(s).len() - 1,
            forall|m: int| 0 <= m < pieces@.len() ==> (#[trigger] pieces@[m])@ == lowercase(trim(split_commas(s)[m])),
            str_views(cands@) == candidates(s, kv.subrange(0, i as int)),
        decreases kv.len() - i,
    {
        assert(kv.subrange(0, i + 1).drop_last() =~= kv.subrange(0, i as int));
        assert(kv.subrange(0, i + 1).last() == known@[i as int]@);
        let typed = is_typed(&pieces, &known[i]);
        proof {
            let sp = split_commas(s);
            if typed {
                let m = choose|m: int| 0 <= m < pieces@.len() && (#[trigger] pieces@[m])@ == lowercase(known@[i as int]@);
                assert(lowercase(trim(sp[m])) == lowercase(known@[i as int]@));
                assert(already_typed(s, known@[i as int]@));
            } else {
                if already_typed(s, known@[i as int]@) {
                    let m = choose|m: int| 0 <= m < sp.len() - 1 && lowercase(trim(#[trigger] sp[m])) == lowercase(known@[i as int]@);
                    assert(pieces@[m]@ == lowercase(trim(sp[m])));
                }
            }
        }
        if !typed {
            let ghost before = str_views(cands@);
            cands.push(known[i].clone());
            assert(str_views(cands@) =~= before.push(known@[i as int]@));
        }
        i = i + 1;
    }
    assert(kv.subrange(0, kv.len() as int) =~= kv);
    let ranked = rank(partial.as_str(), &cands);
    let ghost cv = str_views(cands@);
    assert(views(cands@) == cv);
    let n = if ranked.len() < MAX_SUGGESTIONS { ranked.len() } else { MAX_SUGGESTIONS };
    let mut out: Vec<String> = Vec::new();
    let mut j: usize = 0;
    while j < n
        invariant
            n <= ranked@.len(),
            j <= n,
            out@.len() == j,
            forall|q: int| 0 <= q < j ==> (#[trigger] out@[q])@ == (*ranked@[q].0)@,
        decreases n - j,
    {
        out.push(ranked[j].0.clone());
        j = j + 1;
    }
    proof {
        let idx = choose|idx: Seq<int>| {
            &&& is_ranking(partial@, views(cands@), idx)
            &&& idx.len() == ranked@.len()
            &&& forall|k: int| 0 <= k < idx.len() ==> {
                &&& *ranked@[k].0 == cands@[idx[k]]
                &&& crate::ui::fuzzy::match_is(ranked@[k].1, crate::ui::fuzzy::spec_fuzzy(partial@, cands@[idx[k]]@).unwrap())
            }
        };
        assert forall|q: int| 0 <= q < str_views(out@).len() implies str_views(out@)[q] == cv[idx[q]] by {
            assert(str_views(out@)[q] == out@[q]@);
        }
    }
    out
}

proof fn lemma_last_piece(s: Seq<char>, start: int)
    requires
        0 <= start <= s.len(),
        start == 0 || s[start - 1] == ',',
        forall|k: int| start <= k < s.len() ==> s[k] != ',',
    ensures
        split_commas(s).last() == s.subrange(start, s.len() as int),
    decreases s.len(),
{
    if s.len() > start {
        lemma_last_piece(s.drop_last(), start);
        crate::ui::tasks::lemma_split_nonempty(s.drop_last());
        assert(s.drop_last().subrange(start, s.len() - 1).push(s.last()) =~= s.subrange(start, s.len() as int));
    } else {
        if s.len() == 0 {
        } else {
            crate::ui::tasks::lemma_split_nonempty(s.drop_last());
            assert(s.subrange(start, s.len() as int) =~= Seq::<char>::empty());
        }
    }
}

/// Where the last comma of `buf` is.
pub open spec fn last_comma(buf: Seq<char>) -> Option<int>
    decreases buf.len(),
{
    if buf.len() == 0 {
        None
    } else if buf.last() == ',' {
        Some(buf.len() - 1)
    } else {
        last_comma(buf.drop_last())
    }
}

/// `buf` with the tag being typed replaced by `tag`, ready for the next one.
pub open spec fn accepted(buf: Seq<char>, tag: Seq<char>) -> Seq<char> {
    match last_comma(buf) {
        Some(p) => buf.subrange(0, p + 1) + seq![' '] + tag + seq![',', ' '],
        None => tag + seq![',', ' '],
    }
}

/// The menu's keys, pressed while the tag field has the focus.
#[derive(Clone, Copy, Debug, PartialEq, Eq, Structural)]
pub struct MenuKeys {
    pub down: bool,
    pub up: bool,
    pub tab: bool,
    pub enter: bool,
    pub esc: bool,
}

/// What the menu did with the keys: the keys it consumed (so they do not
/// move the focus or submit / discard the form) and the suggestion chosen.
#[derive(Clone, Copy, Debug, PartialEq, Eq, Structural)]
pub struct MenuResult {
    pub consumed: MenuKeys,
    pub chosen: Option<usize>,
}

/// The highlight after ↓ (the top row counts as highlighted before any move).
pub open spec fn highlight_down(idx: Option<usize>, n: int) -> Option<usize> {
    let next: int = match idx {
        None => 1,
        Some(i) => i + 1,
    };
    Some((if next < n - 1 { next } else { n - 1 }) as usize)
}

/// The highlight after ↑: back to the top (no explicit highlight) from row 0 or 1.
pub open spec fn highlight_up(idx: Option<usize>) -> Option<usize> {
    match idx {
        None => None,
        Some(i) => if i == 0 { None } else { Some((i - 1) as usize) },
    }
}

impl TaskManager {
    /// The tag text changed since the menu was last built: start afresh
    /// (menu open again, nothing highlighted).
    pub fn refresh_tag_menu(&mut self)
        ensures
            menu_only(*old(self), *final(self)),
            old(self).writer.tags_buffer@ != old(self).tag_menu_query@ ==> final(self).tag_menu_query@ == old(self).writer.tags_buffer@
                && !final(self).tag_menu_dismissed && final(self).tag_suggestion_idx is None,
            old(self).writer.tags_buffer@ == old(self).tag_menu_query@ ==> final(self).tag_menu_query@ == old(self).tag_menu_query@
                && final(self).tag_menu_dismissed == old(self).tag_menu_dismissed
                && final(self).tag_suggestion_idx == old(self).tag_suggestion_idx,
            final(self).writer.tags_buffer@ == old(self).writer.tags_buffer@,
            final(self).tasks@ == old(self).tasks@,
    {
        if self.writer.tags_buffer != self.tag_menu_query {
            self.tag_menu_query = self.writer.tags_buffer.clone();
            self.tag_menu_dismissed = false;
            self.tag_suggestion_idx = None;
        }
        proof {
            reveal(menu_only);
        }
    }

    /// The menu's keys, with `n` suggestions showing. With none (or the menu
    /// dismissed) nothing is highlighted and no key is taken. Otherwise, while
    /// the field has the focus: ↓ / ↑ move the highlight, Tab takes the
    /// highlighted suggestion (or the top one), Enter takes the highlighted one
    /// only when one is highlighted, Esc dismisses the menu.
    pub fn tag_menu_keys(&mut self, n: usize, focused: bool, keys: &MenuKeys) -> (r: MenuResult)
        ensures
            menu_only(*old(self), *final(self)),
            final(self).writer.tags_buffer@ == old(self).writer.tags_buffer@,
            final(self).tag_menu_query == old(self).tag_menu_query,
            final(self).tasks@ == old(self).tasks@,
            (n == 0 || old(self).tag_menu_dismissed) ==> final(self).tag_suggestion_idx is None
                && r.chosen is None && r.consumed == (MenuKeys { down: false, up: false, tab: false, enter: false, esc: false })
                && final(self).tag_menu_dismissed == old(self).tag_menu_dismissed,
            !(n == 0 || old(self).tag_menu_dismissed) ==> ({
                let i0 = match old(self).tag_suggestion_idx {
                    Some(i) => if i >= n { None } else { Some(i) },
                    None => None,
                };
                let i1 = if focused && keys.down { highlight_down(i0, n as int) } else { i0 };
                let i2 = if focused && keys.up { highlight_up(i1) } else { i1 };
                let tab_pick = if focused && keys.tab { Some(match i2 { Some(i) => i, None => 0usize }) } else { None::<usize> };
                let enter_pick = if focused && keys.enter && i2 is Some { i2 } else { None::<usize> };
                &&& r.chosen == if enter_pick is Some { enter_pick } else { tab_pick }
                &&& r.consumed == (MenuKeys {
                    down: focused && keys.down,
                    up: focused && keys.up,
                    tab: focused && keys.tab,
                    enter: focused && keys.enter && i2 is Some,
                    esc: focused && keys.esc,
                })
                &&& final(self).tag_menu_dismissed == (old(self).tag_menu_dismissed || (focused && keys.esc))
                &&& final(self).tag_suggestion_idx == i2
            }),
    {
        let none = MenuKeys { down: false, up: false, tab: false, enter: false, esc: false };
        if n == 0 || self.tag_menu_dismissed {
            self.set_menu_state(None, self.tag_menu_dismissed);
            return MenuResult { consumed: none, chosen: None };
        }
        let mut idx = self.tag_suggestion_idx;
        if let Some(i) = idx {
            if i >= n {
                idx = None;
            }
        }
        let mut dismissed = self.tag_menu_dismissed;
        let mut consumed = none;
        let mut chosen: Option<usize> = None;
        if focused {
            if keys.down {
                let next: usize = match idx {
                    None => 1,
                    Some(i) => i + 1,
                };
                idx = Some(if next < n - 1 { next } else { n - 1 });
                consumed.down = true;
            }
            if keys.up {
                idx = match idx {
                    None => None,
                    Some(i) => if i == 0 { None } else { Some(i - 1) },
                };
                consumed.up = true;
            }
            if keys.tab {
                chosen = Some(match idx {
                    Some(i) => i,
                    None => 0,
                });
                consumed.tab = true;
            }
            if keys.enter {
                if let Some(i) = idx {
                    chosen = Some(i);
                    consumed.enter = true;
                }
            }
            if keys.esc {
                dismissed = true;
                consumed.esc = true;
            }
        }
        self.set_menu_state(idx, dismissed);
        MenuResult { consumed, chosen }
    }

    /// Set the menu's highlight and whether it is dismissed.
    fn set_menu_state(&mut self, idx: Option<usize>, dismissed: bool)
        ensures
            *final(self) == (TaskManager { tag_suggestion_idx: idx, tag_menu_dismissed: dismissed, ..*old(self) }),
            menu_only(*old(self), *final(self)),
    {
        self.tag_suggestion_idx = idx;
        self.tag_menu_dismissed = dismissed;
        proof {
            reveal(menu_only);
        }
    }

    /// Take suggestion `tag`: it replaces the tag being typed, followed by
    /// ", " for the next one; the highlight is cleared.
    pub fn accept_tag(&mut self, tag: &String)
        ensures
            menu_only(*old(self), *final(self)),
            final(self).writer.tags_buffer@ == accepted(old(self).writer.tags_buffer@, tag@),
            final(self).tag_suggestion_idx is None,
            final(self).tasks@ == old(self).tasks@,
            final(self).tag_menu_query == old(self).tag_menu_query,
            final(self).tag_menu_dismissed == old(self).tag_menu_dismissed,
    {
        let chars = chars_of(self.writer.tags_buffer.as_str());
        let ghost s = chars@;
        let mut p: usize = chars.len();
        proof {
            assert(s.subrange(0, p as int) =~= s);
        }
        while p > 0 && chars[p - 1] != ','
            invariant
                p <= s.len(),
                chars@ == s,
                last_comma(s) == last_comma(s.subrange(0, p as int)),
            decreases p,
        {
            assert(s.subrange(0, p - 1) =~= s.subrange(0, p as int).drop_last());
            p = p - 1;
        }
        let mut out: Vec<char> = Vec::new();
        if p > 0 {
            assert(last_comma(s.subrange(0, p as int)) == Some(p - 1));
            let mut k: usize = 0;
            while k < p
                invariant
                    k <= p <= s.len(),
                    chars@ == s,
                    out@ == s.subrange(0, k as int),
                decreases p - k,
            {
                out.push(chars[k]);
                assert(s.subrange(0, k + 1) =~= s.subrange(0, k as int).push(s[k as int]));
                k = k + 1;
            }
            out.push(' ');
        } else {
            assert(last_comma(s.subrange(0, 0)) is None);
        }
        let ghost before = out@;
        push_str(&mut out, tag.as_str());
        out.push(',');
        out.push(' ');
        proof {
            assert(out@ =~= accepted(s, tag@));
        }
        self.writer.tags_buffer = string_from_chars(out.as_slice());
        self.tag_suggestion_idx = None;
        proof {
            reveal(menu_only);
        }
    }
}

/// The menu state after the tag text was looked at: a changed text opens
/// the menu afresh (nothing highlighted, not dismissed).
pub open spec fn menu_refreshed(a: TaskManager, b: TaskManager) -> bool {
    let changed = a.writer.tags_buffer@ != a.tag_menu_query@;
    &&& b.writer.tags_buffer@ == a.writer.tags_buffer@
    &&& changed ==> b.tag_menu_query@ == a.writer.tags_buffer@ && !b.tag_menu_dismissed && b.tag_suggestion_idx is None
    &&& !changed ==> b.tag_menu_query@ == a.tag_menu_query@ && b.tag_menu_dismissed == a.tag_menu_dismissed
        && b.tag_suggestion_idx == a.tag_suggestion_idx
}

/// What the menu's keys do with `n` suggestions showing (see `tag_menu_keys`):
/// the highlight moves, Esc dismisses, and the pick and the keys taken come back.
pub open spec fn menu_keys_done(a: TaskManager, b: TaskManager, n: int, focused: bool, keys: MenuKeys, r: MenuResult) -> bool {
    if n == 0 || a.tag_menu_dismissed {
        &&& b.tag_suggestion_idx is None
        &&& r.chosen is None
        &&& r.consumed == (MenuKeys { down: false, up: false, tab: false, enter: false, esc: false })
        &&& b.tag_menu_dismissed == a.tag_menu_dismissed
    } else {
        let i0 = match a.tag_suggestion_idx {
            Some(i) => if i >= n { None } else { Some(i) },
            None => None,
        };
        let i1 = if focused && keys.down { highlight_down(i0, n) } else { i0 };
        let i2 = if focused && keys.up { highlight_up(i1) } else { i1 };
        let tab_pick = if focused && keys.tab { Some(match i2 { Some(i) => i, None => 0usize }) } else { None::<usize> };
        let enter_pick = if focused && keys.enter && i2 is Some { i2 } else { None::<usize> };
        &&& r.chosen == if enter_pick is Some { enter_pick } else { tab_pick }
        &&& r.consumed == (MenuKeys {
            down: focused && keys.down,
            up: focused && keys.up,
            tab: focused && keys.tab,
            enter: focused && keys.enter && i2 is Some,
            esc: focused && keys.esc,
        })
        &&& b.tag_menu_dismissed == (a.tag_menu_dismissed || (focused && keys.esc))
        &&& b.tag_suggestion_idx == i2
    }
}

/// `b` differs from `a` at most in the tag field's text and the completion
/// menu's state (its query, whether it is dismissed, its highlight).
#[verifier::opaque]
pub open spec fn menu_only(a: TaskManager, b: TaskManager) -> bool {
    &&& b.writer == (TaskWriter { tags_buffer: b.writer.tags_buffer, ..a.writer })
    &&& b == (TaskManager {
        writer: b.writer,
        tag_menu_query: b.tag_menu_query,
        tag_menu_dismissed: b.tag_menu_dismissed,
        tag_suggestion_idx: b.tag_suggestion_idx,
        ..a
    })
}

proof fn lemma_menu_only_chain(a: TaskManager, b: TaskManager, c: TaskManager)
    requires
        menu_only(a, b),
        menu_only(b, c),
    ensures
        menu_only(a, c),
{
    reveal(menu_only);
}

impl TaskManager {
    /// One frame of the tag field's completion menu: the menu follows the
    /// text, the suggestions for it are listed from `known`, the keys move
    /// the highlight or pick, and a picked suggestion is taken into the text.
    /// The keys the menu consumed come back (so they do not move the focus
    /// or submit / discard the form).
    pub fn tag_field_frame(&mut self, known: &Vec<String>, focused: bool, keys: &MenuKeys) -> (consumed: MenuKeys)
        ensures
            menu_only(*old(self), *final(self)),
            final(self).tasks@ == old(self).tasks@,
            exists|m: TaskManager, k: TaskManager, sugg: Seq<Seq<char>>, r: MenuResult|
                #![trigger menu_refreshed(*old(self), m), menu_keys_done(m, k, sugg.len() as int, focused, *keys, r)]
                {
                    &&& menu_refreshed(*old(self), m)
                    &&& is_suggestion_list(old(self).writer.tags_buffer@, str_views(known@), sugg)
                    &&& menu_keys_done(m, k, sugg.len() as int, focused, *keys, r)
                    &&& consumed == r.consumed
                    &&& final(self).tag_menu_query@ == m.tag_menu_query@
                    &&& final(self).tag_menu_dismissed == k.tag_menu_dismissed
                    &&& match r.chosen {
                        Some(i) => final(self).writer.tags_buffer@ == accepted(old(self).writer.tags_buffer@, sugg[i as int])
                            && final(self).tag_suggestion_idx is None,
                        None => final(self).writer.tags_buffer@ == old(self).writer.tags_buffer@
                            && final(self).tag_suggestion_idx == k.tag_suggestion_idx,
                    }
                },
    {
        self.refresh_tag_menu();
        let ghost m = *self;
        let sugg = tag_suggestions(&self.writer.tags_buffer, known);
        let r = self.tag_menu_keys(sugg.len(), focused, keys);
        let ghost k = *self;
        proof {
            lemma_menu_only_chain(*old(self), m, k);
        }
        match r.chosen {
            Some(i) => {
                if i < sugg.len() {
                    let tag = sugg[i].clone();
                    self.accept_tag(&tag);
                    proof {
                        lemma_menu_only_chain(*old(self), k, *self);
                    }
                }
            },
            None => {},
        }
        assert(menu_refreshed(*old(self), m));
        assert(menu_keys_done(m, k, sugg@.len() as int, focused, *keys, r));
        r.consumed
    }
}

} // verus!
