//! Stable ordering of items by a key made of a number and a text, as the task
//! list and the tag completion menu sort their rows.

use vstd::prelude::*;

verus! {

/// Lexicographic order on character sequences, comparing code points; this is
/// the order `str::cmp` gives (UTF-8 byte order equals code point order).
pub open spec fn seq_lt(s: Seq<char>, t: Seq<char>) -> bool
    decreases s.len(),
{
    if s.len() == 0 {
        t.len() > 0
    } else if t.len() == 0 {
        false
    } else if s[0] != t[0] {
        (s[0] as int) < (t[0] as int)
    } else {
        seq_lt(s.drop_first(), t.drop_first())
    }
}

pub proof fn lemma_seq_lt_irreflexive(s: Seq<char>)
    ensures
        !seq_lt(s, s),
    decreases s.len(),
{
    if s.len() > 0 {
        lemma_seq_lt_irreflexive(s.drop_first());
    }
}

pub proof fn lemma_seq_lt_transitive(s: Seq<char>, t: Seq<char>, u: Seq<char>)
    requires
        seq_lt(s, t),
        seq_lt(t, u),
    ensures
        seq_lt(s, u),
    decreases s.len(),
{
    if s.len() > 0 && t.len() > 0 && u.len() > 0 {
        if s[0] == t[0] && t[0] == u[0] {
            lemma_seq_lt_transitive(s.drop_first(), t.drop_first(), u.drop_first());
        }
    }
}

pub proof fn lemma_seq_lt_total(s: Seq<char>, t: Seq<char>)
    requires
        s != t,
    ensures
        seq_lt(s, t) || seq_lt(t, s),
    decreases s.len(),
{
    if s.len() == 0 {
        if t.len() == 0 {
            assert(s =~= t);
        }
    } else if t.len() == 0 {
    } else if s[0] != t[0] {
        assert((s[0] as int) != (t[0] as int));
    } else {
        if s.drop_first() == t.drop_first() {
            assert(s =~= t) by {
                assert(s.drop_first().len() == t.drop_first().len());
                assert(s.len() == t.len());
                assert forall|i: int| 0 <= i < s.len() implies s[i] == t[i] by {
                    if i > 0 {
                        assert(s[i] == s.drop_first()[i - 1]);
                        assert(t[i] == t.drop_first()[i - 1]);
                    }
                }
            }
        }
        lemma_seq_lt_total(s.drop_first(), t.drop_first());
    }
}

/// A sort key: rows are ordered by `num`, then by `text`.
pub struct SortKey {
    pub num: i128,
    pub text: Vec<char>,
}

/// The order of two keys.
pub open spec fn key_lt(a: (int, Seq<char>), b: (int, Seq<char>)) -> bool {
    a.0 < b.0 || (a.0 == b.0 && seq_lt(a.1, b.1))
}

impl SortKey {
    pub open spec fn spec_key(&self) -> (int, Seq<char>) {
        (self.num as int, self.text@)
    }
}

/// The keys of `keys`, as mathematical values.
pub open spec fn key_seq(keys: Seq<SortKey>) -> Seq<(int, Seq<char>)> {
    keys.map_values(|k: SortKey| k.spec_key())
}

/// Row `a` comes before row `b`: smaller key, or equal key and earlier row.
pub open spec fn before(keys: Seq<(int, Seq<char>)>, a: int, b: int) -> bool {
    key_lt(keys[a], keys[b]) || (keys[a] == keys[b] && a < b)
}

/// `perm` lists distinct indices below `n`.
pub open spec fn distinct_below(perm: Seq<usize>, n: int) -> bool {
    &&& forall|i: int| 0 <= i < perm.len() ==> perm[i] < n
    &&& forall|i: int, j: int| 0 <= i < j < perm.len() ==> perm[i] != perm[j]
}

/// `perm` is in increasing `before` order.
pub open spec fn sorted_by(keys: Seq<(int, Seq<char>)>, perm: Seq<usize>) -> bool {
    forall|i: int, j: int| 0 <= i < j < perm.len() ==> before(keys, perm[i] as int, perm[j] as int)
}

/// `perm` is the stable sorted order of all the rows of `keys`.
pub open spec fn is_stable_order(keys: Seq<(int, Seq<char>)>, perm: Seq<usize>) -> bool {
    &&& perm.len() == keys.len()
    &&& distinct_below(perm, keys.len() as int)
    &&& sorted_by(keys, perm)
}

pub proof fn lemma_key_lt_facts(a: (int, Seq<char>), b: (int, Seq<char>), c: (int, Seq<char>))
    ensures
        !key_lt(a, a),
        key_lt(a, b) && key_lt(b, c) ==> key_lt(a, c),
        a != b ==> key_lt(a, b) || key_lt(b, a),
        key_lt(a, b) ==> !key_lt(b, a),
{
    lemma_seq_lt_irreflexive(a.1);
    if key_lt(a, b) && key_lt(b, c) && a.0 == b.0 && b.0 == c.0 {
        lemma_seq_lt_transitive(a.1, b.1, c.1);
    }
    if a != b && a.0 == b.0 {
        if a.1 == b.1 {
            assert(a == b);
        }
        lemma_seq_lt_total(a.1, b.1);
    }
    if key_lt(a, b) && key_lt(b, a) && a.0 == b.0 {
        lemma_seq_lt_transitive(a.1, b.1, a.1);
    }
}

/// Exec comparison of two keys.
pub fn key_less(a: &SortKey, b: &SortKey) -> (r: bool)
    ensures
        r == key_lt(a.spec_key(), b.spec_key()),
{
    if a.num < b.num {
        return true;
    }
    if a.num > b.num {
        return false;
    }
    let s = &a.text;
    let t = &b.text;
    let mut i: usize = 0;
    proof {
        assert(s@.subrange(0, s@.len() as int) =~= s@);
        assert(t@.subrange(0, t@.len() as int) =~= t@);
    }
    while i < s.len() && i < t.len() && s[i] == t[i]
        invariant
            i <= s@.len(),
            i <= t@.len(),
            seq_lt(s@, t@) == seq_lt(s@.subrange(i as int, s@.len() as int), t@.subrange(i as int, t@.len() as int)),
        decreases s@.len() - i,
    {
        let ghost ss = s@.subrange(i as int, s@.len() as int);
        let ghost tt = t@.subrange(i as int, t@.len() as int);
        assert(ss.drop_first() =~= s@.subrange(i + 1, s@.len() as int));
        assert(tt.drop_first() =~= t@.subrange(i + 1, t@.len() as int));
        i = i + 1;
    }
    if i == s.len() {
        i < t.len()
    } else if i == t.len() {
        false
    } else {
        s[i] < t[i]
    }
}

/// The stable sorted order of the rows whose keys are `keys`: ascending by
/// key, rows with equal keys in their original order.
pub fn stable_order(keys: &Vec<SortKey>) -> (perm: Vec<usize>)
    ensures
        is_stable_order(key_seq(keys@), perm@),
{
    let ghost ks = key_seq(keys@);
    let n = keys.len();
    let mut out: Vec<usize> = Vec::new();
    let mut x: usize = 0;
    while x < n
        invariant
            n == keys@.len(),
            ks == key_seq(keys@),
            x <= n,
            out@.len() == x,
            distinct_below(out@, x as int),
            sorted_by(ks, out@),
        decreases n - x,
    {
        // Find the insertion point: after every row whose key is not greater.
        let mut pos: usize = out.len();
        while pos > 0 && key_less(&keys[x], &keys[out[pos - 1]])
            invariant
                n == keys@.len(),
                ks == key_seq(keys@),
                x < n,
                out@.len() == x,
                distinct_below(out@, x as int),
                sorted_by(ks, out@),
                pos <= out@.len(),
                forall|m: int| pos <= m < out@.len() ==> key_lt(ks[x as int], ks[out@[m] as int]),
            decreases pos,
        {
            pos = pos - 1;
        }
        proof {
            if pos > 0 {
                let p = out@[pos - 1] as int;
                lemma_key_lt_facts(ks[x as int], ks[p], ks[p]);
                assert(!key_lt(ks[x as int], ks[p]));
                assert(before(ks, p, x as int));
            }
        }
        let ghost old_out = out@;
        out.insert(pos, x);
        proof {
            assert(out@ == old_out.insert(pos as int, x));
            assert forall|i: int, j: int| 0 <= i < j < out@.len() implies before(ks, out@[i] as int, out@[j] as int) by {
                if j < pos {
                    assert(out@[i] == old_out[i] && out@[j] == old_out[j]);
                } else if i > pos {
                    assert(out@[i] == old_out[i - 1] && out@[j] == old_out[j - 1]);
                } else if i == pos {
                    // x then old_out[j - 1]
                    assert(key_lt(ks[x as int], ks[old_out[j - 1] as int]));
                } else if j == pos {
                    // old_out[i] then x
                    let p = old_out[pos - 1] as int;
                    let q = old_out[i] as int;
                    assert(before(ks, p, x as int));
                    if i < pos - 1 {
                        assert(before(ks, q, p));
                        lemma_key_lt_facts(ks[q], ks[p], ks[x as int]);
                        assert(q < x);
                    }
                } else {
                    // i < pos < j
                    let p = old_out[pos - 1] as int;
                    let q = old_out[i] as int;
                    let r = old_out[j - 1] as int;
                    assert(before(ks, q, r));
                }
            }
            assert forall|i: int| 0 <= i < out@.len() implies out@[i] < x + 1 by {
                if i < pos {
                    assert(out@[i] == old_out[i]);
                } else if i > pos {
                    assert(out@[i] == old_out[i - 1]);
                }
            }
            assert forall|i: int, j: int| 0 <= i < j < out@.len() implies out@[i] != out@[j] by {
                if j < pos {
                    assert(out@[i] == old_out[i] && out@[j] == old_out[j]);
                } else if i > pos {
                    assert(out@[i] == old_out[i - 1] && out@[j] == old_out[j - 1]);
                } else if i == pos {
                    assert(out@[j] == old_out[j - 1]);
                } else if j == pos {
                    assert(out@[i] == old_out[i]);
                } else {
                    assert(out@[i] == old_out[i] && out@[j] == old_out[j - 1]);
                }
            }
        }
        x = x + 1;
    }
    out
}

/// Index `v` occurs in `perm`.
pub open spec fn in_list(perm: Seq<usize>, v: int) -> bool {
    exists|i: int| 0 <= i < perm.len() && perm[i] as int == v
}

/// A list of `n` distinct indices below `n` holds every index below `n`.
pub proof fn lemma_distinct_below_covers(perm: Seq<usize>, n: int)
    requires
        perm.len() == n,
        distinct_below(perm, n),
    ensures
        forall|v: int| 0 <= v < n ==> #[trigger] in_list(perm, v),
{
    let s = perm.map_values(|x: usize| x as int);
    assert(s.no_duplicates()) by {
        assert forall|i: int, j: int| 0 <= i < s.len() && 0 <= j < s.len() && i != j implies s[i] != s[j] by {
            if i < j {
                assert(perm[i] != perm[j]);
            } else {
                assert(perm[j] != perm[i]);
            }
        }
    }
    s.unique_seq_to_set();
    vstd::set_lib::lemma_int_range(0, n);
    let r = vstd::set_lib::set_int_range(0, n);
    assert(s.to_set().subset_of(r)) by {
        assert forall|v: int| s.to_set().contains(v) implies r.contains(v) by {
            let i = choose|i: int| 0 <= i < s.len() && s[i] == v;
            assert(perm[i] < n);
        }
    }
    vstd::seq_lib::seq_to_set_is_finite(s);
    vstd::set_lib::lemma_subset_equality(s.to_set(), r);
    assert forall|v: int| 0 <= v < n implies #[trigger] in_list(perm, v) by {
        assert(r.contains(v));
        assert(s.to_set().contains(v));
        let i = choose|i: int| 0 <= i < s.len() && s[i] == v;
        assert(perm[i] as int == v);
    }
}

} // verus!
