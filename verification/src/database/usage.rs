//! How many tasks carry each tag: the tag manager's list.

use vstd::prelude::*;

use crate::database::database::{Db, DbError, contains_string, has_norm, normalize_tag, task_views};
use crate::database::models::{Task, TaskView, str_views};
use crate::database::state::{DbView, has_tag_norm, needs_rewrite, norm, rewrite_count};
use crate::sorting::{SortKey, before, key_seq, lemma_distinct_below_covers, in_list, seq_lt, stable_order};
use crate::text::chars_of;

verus! {

/// Some task among the first `i` of `ts` carries a tag normalizing to `k`.
pub open spec fn used_before(ts: Seq<TaskView>, k: Seq<char>, i: int) -> bool {
    exists|m: int| 0 <= m < i && #[trigger] needs_rewrite(ts[m], k)
}

/// `k` is a non-blank normalized tag that some task carries.
pub open spec fn in_use(ts: Seq<TaskView>, k: Seq<char>) -> bool {
    k.len() > 0 && used_before(ts, k, ts.len() as int)
}

/// `k` belongs in the usage list: it is stored, or some task carries it.
pub open spec fn usage_key(s: DbView, k: Seq<char>) -> bool {
    s.tags.contains(k) || in_use(s.tasks, k)
}

/// How many tasks carry `k` (a blank key counts none).
pub open spec fn usage_count(ts: Seq<TaskView>, k: Seq<char>) -> nat {
    if k.len() == 0 {
        0
    } else {
        rewrite_count(ts, k, ts.len())
    }
}

/// The view of a usage list.
pub open spec fn usage_view(v: Seq<(String, usize)>) -> Seq<(Seq<char>, usize)> {
    v.map_values(|p: (String, usize)| (p.0@, p.1))
}

/// `out` lists every usage key of `s` once, in ascending order, each with its count.
pub open spec fn is_tag_usage(s: DbView, out: Seq<(Seq<char>, usize)>) -> bool {
    &&& forall|i: int, j: int| 0 <= i < j < out.len() ==> seq_lt(#[trigger] out[i].0, #[trigger] out[j].0)
    &&& forall|i: int| 0 <= i < out.len() ==> usage_key(s, #[trigger] out[i].0)
    &&& forall|i: int| 0 <= i < out.len() ==> (#[trigger] out[i]).1 == usage_count(s.tasks, out[i].0)
    &&& forall|k: Seq<char>| usage_key(s, k) ==> exists|i: int| 0 <= i < out.len() && (#[trigger] out[i]).0 == k
}

proof fn lemma_push_contains(s: Seq<Seq<char>>, x: Seq<char>)
    ensures
        forall|k: Seq<char>| #[trigger] s.push(x).contains(k) <==> (s.contains(k) || k == x),
{
    assert forall|k: Seq<char>| #[trigger] s.push(x).contains(k) <==> (s.contains(k) || k == x) by {
        if s.contains(k) {
            let m = choose|m: int| 0 <= m < s.len() && s[m] == k;
            assert(s.push(x)[m] == k);
        }
        if k == x {
            assert(s.push(x)[s.len() as int] == k);
        }
        if s.push(x).contains(k) {
            let m = choose|m: int| 0 <= m < s.len() + 1 && s.push(x)[m] == k;
            if m < s.len() {
                assert(s[m] == k);
            }
        }
    }
}

/// Append `k` unless a string with its characters is there already.
fn add_key(keys: &mut Vec<String>, k: String)
    requires
        str_views(old(keys)@).no_duplicates(),
    ensures
        str_views(final(keys)@).no_duplicates(),
        forall|x: Seq<char>| #[trigger] str_views(final(keys)@).contains(x) <==> (str_views(old(keys)@).contains(x) || x == k@),
{
    proof {
        lemma_push_contains(str_views(keys@), k@);
    }
    if !contains_string(keys, &k) {
        let ghost before = str_views(keys@);
        keys.push(k);
        proof {
            assert(str_views(keys@) =~= before.push(k@));
            assert forall|a: int, b: int| 0 <= a < b < before.push(k@).len() implies before.push(k@)[a] != before.push(k@)[b] by {
                if b == before.len() {
                    assert(before[a] == before.push(k@)[a]);
                }
            }
        }
    }
}

/// How many of `tasks` carry a tag normalizing to `k`.
fn count_carriers(tasks: &Vec<Task>, k: &String) -> (c: usize)
    ensures
        c == rewrite_count(task_views(tasks@), k@, tasks@.len() as nat),
{
    let ghost ts = task_views(tasks@);
    let mut c: usize = 0;
    let mut i: usize = 0;
    while i < tasks.len()
        invariant
            ts == task_views(tasks@),
            i <= tasks@.len(),
            c <= i,
            c == rewrite_count(ts, k@, i as nat),
        decreases tasks@.len() - i,
    {
        assert(ts[i as int] == tasks@[i as int]@);
        match &tasks[i].tags {
            Some(tags) => {
                if has_norm(tags, k) {
                    c = c + 1;
                }
            },
            None => {},
        }
        i = i + 1;
    }
    c
}

impl Db {
    /// Every tag (stored or in use on a task) with how many tasks carry it,
    /// sorted by name. Task tags count by their normalized form, once per task.
    pub fn tag_usage(&self) -> (r: Result<Vec<(String, usize)>, DbError>)
        ensures
            r matches Ok(v) && is_tag_usage(self@, usage_view(v@)),
    {
        let ghost s = self@;
        let stored = match self.all_tags() {
            Ok(v) => v,
            Err(_) => Vec::new(),
        };
        let tasks = match self.all_tasks() {
            Ok(v) => v,
            Err(_) => Vec::new(),
        };
        let ghost tv = str_views(stored@);
        let ghost ts = task_views(tasks@);
        assert(tv == s.tags);
        assert(ts == s.tasks);
        // The keys: stored tags first, then the normalized tags of each task.
        let mut keys: Vec<String> = Vec::new();
        let mut i: usize = 0;
        assert(str_views(keys@) =~= Seq::<Seq<char>>::empty());
        while i < stored.len()
            invariant
                tv == str_views(stored@),
                i <= stored@.len(),
                str_views(keys@).no_duplicates(),
                forall|k: Seq<char>| #[trigger] str_views(keys@).contains(k) <==> tv.subrange(0, i as int).contains(k),
            decreases stored@.len() - i,
        {
            proof {
                assert(tv.subrange(0, i + 1) =~= tv.subrange(0, i as int).push(tv[i as int]));
                lemma_push_contains(tv.subrange(0, i as int), tv[i as int]);
            }
            add_key(&mut keys, stored[i].clone());
            i = i + 1;
        }
        assert(tv.subrange(0, tv.len() as int) =~= tv);
        let mut t: usize = 0;
        while t < tasks.len()
            invariant
                tv == s.tags,
                ts == task_views(tasks@),
                t <= tasks@.len(),
                str_views(keys@).no_duplicates(),
                forall|k: Seq<char>| #[trigger] str_views(keys@).contains(k) <==> (tv.contains(k) || (k.len() > 0 && used_before(ts, k, t as int))),
            decreases tasks@.len() - t,
        {
            assert(ts[t as int] == tasks@[t as int]@);
            match &tasks[t].tags {
                Some(tags) => {
                    let ghost tg = str_views(tags@);
                    let mut j: usize = 0;
                    while j < tags.len()
                        invariant
                            tv == s.tags,
                            ts == task_views(tasks@),
                            t < tasks@.len(),
                            tg == str_views(tags@),
                            ts[t as int].tags == Some(tg),
                            j <= tags@.len(),
                            str_views(keys@).no_duplicates(),
                            forall|k: Seq<char>| #[trigger] str_views(keys@).contains(k) <==> (tv.contains(k) || (k.len() > 0 && used_before(ts, k, t as int))
                                || (k.len() > 0 && exists|q: int| 0 <= q < j && norm(#[trigger] tg[q]) == k)),
                        decreases tags@.len() - j,
                    {
                        let n = normalize_tag(tags[j].as_str());
                        assert(tg[j as int] == tags@[j as int]@);
                        if n.unicode_len() > 0 {
                            add_key(&mut keys, n);
                        }
                        proof {
                            assert forall|k: Seq<char>| #[trigger] str_views(keys@).contains(k) <==> (tv.contains(k) || (k.len() > 0 && used_before(ts, k, t as int))
                                || (k.len() > 0 && exists|q: int| 0 <= q < j + 1 && norm(#[trigger] tg[q]) == k)) by {
                                if k.len() > 0 && exists|q: int| 0 <= q < j + 1 && norm(#[trigger] tg[q]) == k {
                                    let q = choose|q: int| 0 <= q < j + 1 && norm(#[trigger] tg[q]) == k;
                                    if q < j {
                                        assert(exists|q: int| 0 <= q < j && norm(#[trigger] tg[q]) == k);
                                    }
                                }
                                if k.len() > 0 && exists|q: int| 0 <= q < j && norm(#[trigger] tg[q]) == k {
                                    let q = choose|q: int| 0 <= q < j && norm(#[trigger] tg[q]) == k;
                                    assert(0 <= q < j + 1 && norm(tg[q]) == k);
                                }
                                if k == norm(tg[j as int]) && k.len() > 0 {
                                    assert(0 <= j < j + 1 && norm(tg[j as int]) == k);
                                }
                            }
                        }
                        j = j + 1;
                    }
                    proof {
                        assert forall|k: Seq<char>| #[trigger] str_views(keys@).contains(k) <==> (tv.contains(k) || (k.len() > 0 && used_before(ts, k, t + 1))) by {
                            if k.len() > 0 && used_before(ts, k, t + 1) {
                                let m = choose|m: int| 0 <= m < t + 1 && #[trigger] needs_rewrite(ts[m], k);
                                if m == t {
                                    assert(has_tag_norm(tg, k));
                                    let q = choose|q: int| 0 <= q < tg.len() && norm(tg[q]) == k;
                                    assert(norm(tg[q]) == k);
                                } else {
                                    assert(used_before(ts, k, t as int));
                                }
                            }
                            if k.len() > 0 && used_before(ts, k, t as int) {
                                let m = choose|m: int| 0 <= m < t && #[trigger] needs_rewrite(ts[m], k);
                                assert(0 <= m < t + 1 && needs_rewrite(ts[m], k));
                            }
                            if k.len() > 0 && exists|q: int| 0 <= q < tg.len() && norm(#[trigger] tg[q]) == k {
                                assert(has_tag_norm(tg, k));
                                assert(needs_rewrite(ts[t as int], k));
                            }
                        }
                    }
                },
                None => {
                    proof {
                        assert forall|k: Seq<char>| #[trigger] str_views(keys@).contains(k) <==> (tv.contains(k) || (k.len() > 0 && used_before(ts, k, t + 1))) by {
                            if k.len() > 0 && used_before(ts, k, t + 1) {
                                let m = choose|m: int| 0 <= m < t + 1 && #[trigger] needs_rewrite(ts[m], k);
                                assert(m != t);
                                assert(used_before(ts, k, t as int));
                            }
                            if k.len() > 0 && used_before(ts, k, t as int) {
                                let m = choose|m: int| 0 <= m < t && #[trigger] needs_rewrite(ts[m], k);
                                assert(0 <= m < t + 1 && needs_rewrite(ts[m], k));
                            }
                        }
                    }
                },
            }
            t = t + 1;
        }
        // Counts, and the sort keys.
        let ghost kv = str_views(keys@);
        let mut counts: Vec<usize> = Vec::new();
        let mut sort_keys: Vec<SortKey> = Vec::new();
        let mut p: usize = 0;
        while p < keys.len()
            invariant
                kv == str_views(keys@),
                ts == task_views(tasks@),
                p <= keys@.len(),
                counts@.len() == p,
                sort_keys@.len() == p,
                forall|q: int| 0 <= q < p ==> #[trigger] counts@[q] == usage_count(ts, kv[q]),
                forall|q: int| 0 <= q < p ==> (#[trigger] sort_keys@[q]).spec_key() == (0int, kv[q]),
            decreases keys@.len() - p,
        {
            assert(kv[p as int] == keys@[p as int]@);
            let c = if keys[p].unicode_len() == 0 {
                0
            } else {
                count_carriers(&tasks, &keys[p])
            };
            counts.push(c);
            sort_keys.push(SortKey { num: 0, text: chars_of(keys[p].as_str()) });
            p = p + 1;
        }
        let perm = stable_order(&sort_keys);
        let ghost ks = key_seq(sort_keys@);
        assert forall|q: int| 0 <= q < ks.len() implies ks[q] == (0int, #[trigger] kv[q]) by {
            assert(ks[q] == sort_keys@[q].spec_key());
        }
        let mut out: Vec<(String, usize)> = Vec::new();
        let mut x: usize = 0;
        while x < perm.len()
            invariant
                kv == str_views(keys@),
                ks == key_seq(sort_keys@),
                ks.len() == kv.len(),
                counts@.len() == kv.len(),
                perm@.len() == kv.len(),
                forall|q: int| 0 <= q < perm@.len() ==> perm@[q] < kv.len(),
                x <= perm@.len(),
                out@.len() == x,
                forall|q: int| 0 <= q < x ==> (#[trigger] out@[q]).0@ == kv[perm@[q] as int] && out@[q].1 == counts@[perm@[q] as int],
            decreases perm@.len() - x,
        {
            let k = perm[x];
            assert(kv[k as int] == keys@[k as int]@);
            out.push((keys[k].clone(), counts[k]));
            x = x + 1;
        }
        proof {
            let ov = usage_view(out@);
            assert forall|q: int| 0 <= q < ov.len() implies #[trigger] ov[q] == (kv[perm@[q] as int], counts@[perm@[q] as int]) by {
                assert(ov[q] == (out@[q].0@, out@[q].1));
            }
            assert forall|a: int, b: int| 0 <= a < b < ov.len() implies seq_lt(#[trigger] ov[a].0, #[trigger] ov[b].0) by {
                let pa = perm@[a] as int;
                let pb = perm@[b] as int;
                assert(before(ks, pa, pb));
                assert(pa != pb);
                assert(kv[pa] != kv[pb]);
                assert(ks[pa] == (0int, kv[pa]));
                assert(ks[pb] == (0int, kv[pb]));
            }
            assert forall|q: int| 0 <= q < ov.len() implies usage_key(s, #[trigger] ov[q].0) by {
                let pq = perm@[q] as int;
                assert(kv.contains(kv[pq]));
            }
            assert forall|q: int| 0 <= q < ov.len() implies (#[trigger] ov[q]).1 == usage_count(s.tasks, ov[q].0) by {
                let pq = perm@[q] as int;
                assert(counts@[pq] == usage_count(ts, kv[pq]));
            }
            lemma_distinct_below_covers(perm@, kv.len() as int);
            assert forall|k: Seq<char>| usage_key(s, k) implies exists|i: int| 0 <= i < ov.len() && (#[trigger] ov[i]).0 == k by {
                assert(kv.contains(k));
                let pk = choose|pk: int| 0 <= pk < kv.len() && kv[pk] == k;
                assert(in_list(perm@, pk));
                let i = choose|i: int| 0 <= i < perm@.len() && perm@[i] as int == pk;
                assert(ov[i].0 == k);
            }
        }
        Ok(out)
    }
}

} // verus!
