//! Errors shown to the user: fatal ones one at a time in a modal, non-fatal
//! ones as banners that can each be dismissed.

use vstd::prelude::*;

use crate::text::string_from_chars;
use crate::ui::dates::{digits, push_digits, push_str};

verus! {

#[derive(Clone, Copy, Debug, PartialEq, Eq, Structural)]
pub enum ErrorSeverity {
    Fatal,
    NonFatal,
}

/// One captured error: a user-facing line and the full technical chain.
pub struct ErrorEntry {
    /// Top-level, user-facing message — no internal chain.
    pub friendly: String,
    /// Full chain, revealed only on demand.
    pub details: String,
    /// Whether the "Details" disclosure is expanded (non-fatal banners).
    pub details_open: bool,
}

/// An entry as its texts and its disclosure state.
pub open spec fn entry_view(e: ErrorEntry) -> (Seq<char>, Seq<char>, bool) {
    (e.friendly@, e.details@, e.details_open)
}

/// The views of a list of entries.
pub open spec fn entry_views(v: Seq<ErrorEntry>) -> Seq<(Seq<char>, Seq<char>, bool)> {
    v.map_values(|e: ErrorEntry| entry_view(e))
}

impl ErrorEntry {
    /// An entry with the user-facing line `friendly` and the full chain
    /// `details`, its details folded.
    pub fn new(friendly: String, details: String) -> (e: ErrorEntry)
        ensures
            e.friendly@ == friendly@,
            e.details@ == details@,
            !e.details_open,
    {
        ErrorEntry { friendly, details, details_open: false }
    }

    /// True when the full chain says more than the friendly line already shows,
    /// i.e. there is something worth putting behind "Details".
    pub fn has_extra_details(&self) -> (b: bool)
        ensures
            b == (self.details@ != self.friendly@),
    {
        self.details != self.friendly
    }
}

/// The banners `v` after the details of each banner in `t` are opened or
/// folded in turn (an index past the end changes nothing).
pub open spec fn toggled(v: Seq<(Seq<char>, Seq<char>, bool)>, t: Seq<usize>) -> Seq<(Seq<char>, Seq<char>, bool)>
    decreases t.len(),
{
    if t.len() == 0 {
        v
    } else {
        let w = toggled(v, t.drop_last());
        let k = t.last() as int;
        if k < w.len() { w.update(k, (w[k].0, w[k].1, !w[k].2)) } else { w }
    }
}

/// The banners `v` without those at the indices `r`, removed from the last
/// index of `r` back to the first.
pub open spec fn dismissed(v: Seq<(Seq<char>, Seq<char>, bool)>, r: Seq<usize>) -> Seq<(Seq<char>, Seq<char>, bool)>
    decreases r.len(),
{
    if r.len() == 0 {
        v
    } else {
        dismissed(v.remove(r.last() as int), r.drop_last())
    }
}

/// The errors waiting to be shown.
pub struct ErrorUi {
    /// Fatal errors are shown one at a time; user must dismiss before continuing.
    pub fatal: Vec<ErrorEntry>,
    /// Non-fatal errors queue up; each can be dismissed independently.
    pub non_fatal: Vec<ErrorEntry>,
}

impl Default for ErrorUi {
    fn default() -> (u: ErrorUi)
        ensures
            u.fatal@.len() == 0,
            u.non_fatal@.len() == 0,
    {
        ErrorUi { fatal: Vec::new(), non_fatal: Vec::new() }
    }
}

/// "+N more".
pub open spec fn more_text(n: nat) -> Seq<char> {
    "+"@ + digits(n)
        + " more"@
}

impl ErrorUi {
    /// Queue an error: fatal ones wait for the modal, non-fatal ones become banners.
    pub fn push(&mut self, entry: ErrorEntry, severity: ErrorSeverity) -> (r: &mut Self)
        ensures
            severity == ErrorSeverity::Fatal ==> entry_views(r.fatal@) == entry_views(old(self).fatal@).push(entry_view(entry))
                && entry_views(r.non_fatal@) == entry_views(old(self).non_fatal@),
            severity == ErrorSeverity::NonFatal ==> entry_views(r.non_fatal@) == entry_views(old(self).non_fatal@).push(entry_view(entry))
                && entry_views(r.fatal@) == entry_views(old(self).fatal@),
            *final(self) == *final(r),
    {
        let ghost ev = entry_view(entry);
        let ghost f0 = entry_views(self.fatal@);
        let ghost n0 = entry_views(self.non_fatal@);
        match severity {
            ErrorSeverity::Fatal => {
                self.fatal.push(entry);
                assert(entry_views(self.fatal@) =~= f0.push(ev));
            },
            ErrorSeverity::NonFatal => {
                self.non_fatal.push(entry);
                assert(entry_views(self.non_fatal@) =~= n0.push(ev));
            },
        }
        self
    }

    /// Whether a non-fatal banner is showing.
    pub fn has_non_fatal(&self) -> (b: bool)
        ensures
            b == (self.non_fatal@.len() > 0),
    {
        self.non_fatal.len() > 0
    }

    /// Dismiss the fatal error on show (the first one).
    pub fn dismiss_fatal(&mut self)
        ensures
            old(self).fatal@.len() > 0 ==> entry_views(final(self).fatal@) == entry_views(old(self).fatal@).drop_first(),
            old(self).fatal@.len() == 0 ==> final(self).fatal@.len() == 0,
            entry_views(final(self).non_fatal@) == entry_views(old(self).non_fatal@),
    {
        if self.fatal.len() > 0 {
            let ghost f0 = entry_views(self.fatal@);
            self.fatal.remove(0);
            assert(entry_views(self.fatal@) =~= f0.drop_first());
        }
    }

    /// Esc goes to the newest banner first: it dismisses it and is spent
    /// (true); with no banner it is left for the panes (false).
    pub fn escape(&mut self) -> (spent: bool)
        ensures
            spent == (old(self).non_fatal@.len() > 0),
            spent ==> entry_views(final(self).non_fatal@) == entry_views(old(self).non_fatal@).drop_last(),
            !spent ==> *final(self) == *old(self),
            entry_views(final(self).fatal@) == entry_views(old(self).fatal@),
    {
        let n = self.non_fatal.len();
        if n == 0 {
            return false;
        }
        let ghost b0 = entry_views(self.non_fatal@);
        self.non_fatal.remove(n - 1);
        assert(entry_views(self.non_fatal@) =~= b0.drop_last());
        true
    }

    /// The banner clicks of one frame: each banner in `to_toggle` opens or
    /// folds its details (indices past the end are ignored), then the
    /// banners in `to_remove` (ascending) are dismissed, from the last one
    /// back so the others keep their places.
    pub fn apply_banner_actions(&mut self, to_toggle: &Vec<usize>, to_remove: &Vec<usize>)
        requires
            forall|a: int, b: int| 0 <= a < b < to_remove@.len() ==> to_remove@[a] < to_remove@[b],
            forall|a: int| 0 <= a < to_remove@.len() ==> to_remove@[a] < old(self).non_fatal@.len(),
        ensures
            final(self).non_fatal@.len() == old(self).non_fatal@.len() - to_remove@.len(),
            entry_views(final(self).non_fatal@) == dismissed(toggled(entry_views(old(self).non_fatal@), to_toggle@), to_remove@),
            entry_views(final(self).fatal@) == entry_views(old(self).fatal@),
    {
        let ghost v0 = entry_views(self.non_fatal@);
        let mut i: usize = 0;
        assert(to_toggle@.subrange(0, 0) =~= Seq::<usize>::empty());
        while i < to_toggle.len()
            invariant
                i <= to_toggle@.len(),
                self.non_fatal@.len() == old(self).non_fatal@.len(),
                entry_views(self.non_fatal@) == toggled(v0, to_toggle@.subrange(0, i as int)),
                entry_views(self.fatal@) == entry_views(old(self).fatal@),
            decreases to_toggle@.len() - i,
        {
            let k = to_toggle[i];
            let ghost before = entry_views(self.non_fatal@);
            assert(to_toggle@.subrange(0, i + 1).drop_last() =~= to_toggle@.subrange(0, i as int));
            assert(to_toggle@.subrange(0, i + 1).last() == k);
            if k < self.non_fatal.len() {
                let open = self.non_fatal[k].details_open;
                let e = ErrorEntry {
                    friendly: self.non_fatal[k].friendly.clone(),
                    details: self.non_fatal[k].details.clone(),
                    details_open: !open,
                };
                self.non_fatal.set(k, e);
                assert(entry_views(self.non_fatal@) =~= before.update(k as int, (before[k as int].0, before[k as int].1, !before[k as int].2)));
            }
            i = i + 1;
        }
        assert(to_toggle@.subrange(0, to_toggle@.len() as int) =~= to_toggle@);
        let ghost t = entry_views(self.non_fatal@);
        let mut j: usize = to_remove.len();
        assert(to_remove@.subrange(0, j as int) =~= to_remove@);
        while j > 0
            invariant
                j <= to_remove@.len(),
                forall|a: int, b: int| 0 <= a < b < to_remove@.len() ==> to_remove@[a] < to_remove@[b],
                forall|a: int| 0 <= a < to_remove@.len() ==> to_remove@[a] < old(self).non_fatal@.len(),
                self.non_fatal@.len() == old(self).non_fatal@.len() - (to_remove@.len() - j),
                forall|a: int| 0 <= a < j ==> to_remove@[a] < self.non_fatal@.len(),
                dismissed(entry_views(self.non_fatal@), to_remove@.subrange(0, j as int)) == dismissed(t, to_remove@),
                entry_views(self.fatal@) == entry_views(old(self).fatal@),
            decreases j,
        {
            let k = to_remove[j - 1];
            let ghost before = entry_views(self.non_fatal@);
            assert(to_remove@.subrange(0, j as int).drop_last() =~= to_remove@.subrange(0, j - 1));
            assert(to_remove@.subrange(0, j as int).last() == k);
            self.non_fatal.remove(k);
            assert(entry_views(self.non_fatal@) =~= before.remove(k as int));
            j = j - 1;
        }
        assert(to_remove@.subrange(0, 0) =~= Seq::<usize>::empty());
    }

    /// The count of fatal errors behind the one on show, as "+N more", when there are any.
    pub fn more_label(&self) -> (s: Option<String>)
        ensures
            self.fatal@.len() <= 1 ==> s is None,
            self.fatal@.len() > 1 ==> (s matches Some(t) && t@ == more_text((self.fatal@.len() - 1) as nat)),
    {
        if self.fatal.len() <= 1 {
            return None;
        }
        let mut out: Vec<char> = Vec::new();
        proof {
            reveal_strlit("+");
            reveal_strlit(" more");
        }
        push_str(&mut out, "+");
        push_digits(&mut out, (self.fatal.len() - 1) as u64);
        push_str(&mut out, " more");
        assert(out@ =~= more_text((self.fatal@.len() - 1) as nat));
        Some(string_from_chars(out.as_slice()))
    }
}

} // verus!
