//! Small fuzzy matcher for tag completion, in the spirit of fzf / blink.cmp:
//! the query must appear in order as a subsequence of the candidate
//! (case-insensitive); scoring rewards prefix, consecutive, and word-start hits.

use vstd::prelude::*;

use crate::sorting::{SortKey, before, in_list, key_lt, key_seq, lemma_distinct_below_covers, stable_order};
use crate::text::{chars_of, lowercase, to_lower};

verus! {

/// A scored match: higher `score` is better; `positions` are the matched char
/// indices in the candidate, for highlighting.
#[derive(Debug, Clone, PartialEq)]
pub struct FuzzyMatch {
    pub score: i32,
    pub positions: Vec<usize>,
}

pub const MATCH: i32 = 16;
pub const CONSECUTIVE: i32 = 12;
pub const WORD_START: i32 = 10;
pub const FIRST_CHAR: i32 = 20;
pub const GAP: i32 = -1;

/// Characters after which a new word starts.
pub open spec fn is_separator(ch: char) -> bool {
    ch == '-' || ch == '_' || ch == ' ' || ch == '/' || ch == '.' || ch == ':'
}

/// Index `i` of `c` starts a word: the first char, or one right after a separator.
pub open spec fn word_start(c: Seq<char>, i: int) -> bool {
    i == 0 || (0 < i <= c.len() && is_separator(c[i - 1]))
}

/// The first index `j >= from` with `c[j] == qc`.
pub open spec fn first_occurrence(c: Seq<char>, qc: char, from: int) -> Option<int>
    decreases c.len() - from,
{
    if from < 0 || from >= c.len() {
        None
    } else if c[from] == qc {
        Some(from)
    } else {
        first_occurrence(c, qc, from + 1)
    }
}

/// The first index `j >= from` with `c[j] == qc` that continues the run ending
/// at `prev` or starts a word.
pub open spec fn first_preferred(c: Seq<char>, qc: char, from: int, prev: int) -> Option<int>
    decreases c.len() - from,
{
    if from < 0 || from >= c.len() {
        None
    } else if c[from] == qc && (from == prev + 1 || word_start(c, from)) {
        Some(from)
    } else {
        first_preferred(c, qc, from + 1, prev)
    }
}

/// Query chars `k..` of `q` can still be matched, in order, in the
/// candidate from index `from` on (taking each at its first occurrence
/// finds a way whenever there is one).
pub open spec fn fits(q: Seq<char>, k: int, c: Seq<char>, from: int) -> bool
    decreases q.len() - k,
{
    if k >= q.len() {
        true
    } else {
        match first_occurrence(c, q[k], from) {
            None => false,
            Some(j) => fits(q, k + 1, c, j + 1),
        }
    }
}

/// Where query char `k` is matched when the search resumes at `from` and
/// the previous match was at `prev`: the first preferred occurrence, when
/// the rest of the query can still be matched after it; else the first
/// occurrence.
pub open spec fn pick(q: Seq<char>, k: int, c: Seq<char>, from: int, prev: int) -> Option<int> {
    match first_preferred(c, q[k], from, prev) {
        Some(j) => if fits(q, k + 1, c, j + 1) { Some(j) } else { first_occurrence(c, q[k], from) },
        None => first_occurrence(c, q[k], from),
    }
}

/// Matched positions of the first `k` query chars, left to right.
pub open spec fn match_positions(q: Seq<char>, c: Seq<char>, k: nat) -> Option<Seq<int>>
    decreases k,
{
    if k == 0 {
        Some(Seq::empty())
    } else {
        match match_positions(q, c, (k - 1) as nat) {
            None => None,
            Some(ps) => {
                let from = if ps.len() == 0 { 0 } else { ps.last() + 1 };
                let prev = if ps.len() == 0 { -2 } else { ps.last() };
                match pick(q, k - 1, c, from, prev) {
                    None => None,
                    Some(j) => Some(ps.push(j)),
                }
            }
        }
    }
}

/// What the `k`-th matched position adds to the score.
pub open spec fn step_score(c: Seq<char>, ps: Seq<int>, k: int) -> int {
    let p = ps[k];
    MATCH + (if p == 0 { FIRST_CHAR as int } else { 0 }) + (if word_start(c, p) { WORD_START as int } else { 0 })
        + (if k > 0 {
        if p == ps[k - 1] + 1 { CONSECUTIVE as int } else { GAP * (p - ps[k - 1] - 1) }
    } else {
        0
    })
}

/// Score of the first `k` matched positions.
pub open spec fn score_prefix(c: Seq<char>, ps: Seq<int>, k: nat) -> int
    decreases k,
{
    if k == 0 {
        0
    } else {
        score_prefix(c, ps, (k - 1) as nat) + step_score(c, ps, k - 1)
    }
}

/// Full score of a match: the position scores, less one per extra candidate char.
pub open spec fn match_score(q: Seq<char>, c: Seq<char>, ps: Seq<int>) -> int {
    score_prefix(c, ps, ps.len()) - (if c.len() > q.len() { c.len() - q.len() } else { 0 })
}

/// The match of lowercased query `q` against lowercased candidate `c`, as
/// (score, positions); `None` for an empty query or when matching fails.
pub open spec fn spec_match(q: Seq<char>, c: Seq<char>) -> Option<(int, Seq<int>)> {
    if q.len() == 0 {
        None
    } else {
        match match_positions(q, c, q.len()) {
            None => None,
            Some(ps) => Some((match_score(q, c, ps), ps)),
        }
    }
}

/// The result of `fuzzy_match(query, candidate)` for strings with these characters.
pub open spec fn spec_fuzzy(query: Seq<char>, candidate: Seq<char>) -> Option<(int, Seq<int>)> {
    spec_match(lowercase(query), lowercase(candidate))
}

/// `m` is the exec form of the spec match `s`.
pub open spec fn match_is(m: FuzzyMatch, s: (int, Seq<int>)) -> bool {
    &&& m.score == s.0 as i32
    &&& m.positions@.len() == s.1.len()
    &&& forall|i: int| 0 <= i < s.1.len() ==> m.positions@[i] as int == s.1[i]
}

pub fn is_word_start(c: &[char], i: usize) -> (b: bool)
    requires
        i <= c@.len(),
    ensures
        b == word_start(c@, i as int),
{
    i == 0 || matches!(c[i - 1], '-' | '_' | ' ' | '/' | '.' | ':')
}

proof fn lemma_first_occurrence_skip(c: Seq<char>, qc: char, from: int, to: int)
    requires
        0 <= from <= to,
        forall|m: int| from <= m < to && m < c.len() ==> c[m] != qc,
    ensures
        first_occurrence(c, qc, from) == first_occurrence(c, qc, to),
    decreases to - from,
{
    if from < to && from < c.len() {
        lemma_first_occurrence_skip(c, qc, from + 1, to);
    }
}

proof fn lemma_first_preferred_skip(c: Seq<char>, qc: char, from: int, to: int, prev: int)
    requires
        0 <= from <= to,
        forall|m: int| from <= m < to && m < c.len() ==> !(c[m] == qc && (m == prev + 1 || word_start(c, m))),
    ensures
        first_preferred(c, qc, from, prev) == first_preferred(c, qc, to, prev),
    decreases to - from,
{
    if from < to && from < c.len() {
        lemma_first_preferred_skip(c, qc, from + 1, to, prev);
    }
}

proof fn lemma_found_in_range(c: Seq<char>, qc: char, from: int, prev: int)
    ensures
        first_occurrence(c, qc, from) matches Some(j) ==> from <= j < c.len() && c[j] == qc,
        first_preferred(c, qc, from, prev) matches Some(j) ==> from <= j < c.len() && c[j] == qc,
    decreases c.len() - from,
{
    if 0 <= from < c.len() {
        lemma_found_in_range(c, qc, from + 1, prev);
    }
}

/// Positions are strictly increasing, in range, and on matching chars.
pub open spec fn is_embedding(q: Seq<char>, c: Seq<char>, ps: Seq<int>) -> bool {
    &&& ps.len() <= q.len()
    &&& forall|i: int| 0 <= i < ps.len() ==> 0 <= #[trigger] ps[i] < c.len() && c[ps[i]] == q[i]
    &&& forall|i: int, j: int| 0 <= i < j < ps.len() ==> ps[i] < ps[j]
}

proof fn lemma_positions_embed(q: Seq<char>, c: Seq<char>, k: nat)
    requires
        k <= q.len(),
    ensures
        match_positions(q, c, k) matches Some(ps) ==> ps.len() == k && is_embedding(q, c, ps),
    decreases k,
{
    if k > 0 {
        lemma_positions_embed(q, c, (k - 1) as nat);
        if let Some(ps) = match_positions(q, c, (k - 1) as nat) {
            let from = if ps.len() == 0 { 0 } else { ps.last() + 1 };
            let prev = if ps.len() == 0 { -2 } else { ps.last() };
            lemma_found_in_range(c, q[k - 1], from, prev);
        }
    }
}

/// Law: a match is always a case-insensitive subsequence embedding of the
/// query in the candidate — its positions increase strictly and each one
/// holds the corresponding (lowercased) query character.
pub proof fn lemma_match_is_subsequence(query: Seq<char>, candidate: Seq<char>)
    ensures
        spec_fuzzy(query, candidate) matches Some(m) ==> {
            &&& m.1.len() == lowercase(query).len()
            &&& is_embedding(lowercase(query), lowercase(candidate), m.1)
        },
{
    let q = lowercase(query);
    lemma_positions_embed(q, lowercase(candidate), q.len());
}

/// `q` appears in `c` in order: some strictly increasing positions of `c`
/// hold the characters of `q` one by one.
pub open spec fn in_order(q: Seq<char>, c: Seq<char>) -> bool {
    exists|idx: Seq<int>| idx.len() == q.len() && #[trigger] is_embedding(q, c, idx)
}

proof fn lemma_first_occurrence_le(c: Seq<char>, qc: char, from: int, m: int)
    requires
        0 <= from <= m < c.len(),
        c[m] == qc,
    ensures
        first_occurrence(c, qc, from) matches Some(j) && from <= j <= m,
    decreases m - from,
{
    if c[from] != qc {
        lemma_first_occurrence_le(c, qc, from + 1, m);
    }
}

/// Query chars `k..` embedded at positions `idx[k..]`, all at or after
/// `from`, can still be matched from `from`.
proof fn lemma_embedding_fits(q: Seq<char>, c: Seq<char>, idx: Seq<int>, k: int, from: int)
    requires
        idx.len() == q.len(),
        is_embedding(q, c, idx),
        0 <= k <= q.len(),
        0 <= from,
        k < q.len() ==> from <= idx[k],
    ensures
        fits(q, k, c, from),
    decreases q.len() - k,
{
    if k < q.len() {
        let m = idx[k];
        assert(0 <= m < c.len() && c[m] == q[k]);
        lemma_first_occurrence_le(c, q[k], from, m);
        let j = first_occurrence(c, q[k], from).unwrap();
        if k + 1 < q.len() {
            assert(idx[k] < idx[k + 1]);
        }
        lemma_embedding_fits(q, c, idx, k + 1, j + 1);
    }
}

/// Where the rest can still be matched, the next query char is picked and
/// the rest can still be matched after it.
proof fn lemma_pick_keeps_fit(q: Seq<char>, k: int, c: Seq<char>, from: int, prev: int)
    requires
        0 <= k < q.len(),
        fits(q, k, c, from),
    ensures
        pick(q, k, c, from, prev) matches Some(j) && fits(q, k + 1, c, j + 1),
{
}

/// Starting from a query that fits, every prefix is matched and the rest
/// still fits after it.
proof fn lemma_prefix_fits(q: Seq<char>, c: Seq<char>, k: nat)
    requires
        k <= q.len(),
        fits(q, 0, c, 0),
    ensures
        match_positions(q, c, k) matches Some(ps)
            && fits(q, k as int, c, if ps.len() == 0 { 0 } else { ps.last() + 1 }),
    decreases k,
{
    lemma_positions_embed(q, c, k);
    if k > 0 {
        lemma_prefix_fits(q, c, (k - 1) as nat);
        lemma_positions_embed(q, c, (k - 1) as nat);
        let ps = match_positions(q, c, (k - 1) as nat).unwrap();
        let from = if ps.len() == 0 { 0 } else { ps.last() + 1 };
        let prev = if ps.len() == 0 { -2 } else { ps.last() };
        if ps.len() > 0 {
            assert(0 <= ps[ps.len() - 1]);
        }
        lemma_pick_keeps_fit(q, k - 1, c, from, prev);
    }
}

/// Law: a query matches exactly when its lowercased characters appear, in
/// order, among the lowercased candidate's (an empty query matches nothing).
pub proof fn law_match_iff_in_order(query: Seq<char>, candidate: Seq<char>)
    ensures
        (spec_fuzzy(query, candidate) is Some) <==> (lowercase(query).len() > 0
            && in_order(lowercase(query), lowercase(candidate))),
{
    let q = lowercase(query);
    let c = lowercase(candidate);
    lemma_positions_embed(q, c, q.len());
    if spec_fuzzy(query, candidate) is Some {
        let ps = match_positions(q, c, q.len()).unwrap();
        assert(is_embedding(q, c, ps));
    }
    if q.len() > 0 && in_order(q, c) {
        let idx = choose|idx: Seq<int>| idx.len() == q.len() && #[trigger] is_embedding(q, c, idx);
        lemma_embedding_fits(q, c, idx, 0, 0);
        lemma_prefix_fits(q, c, q.len());
    }
}

proof fn lemma_word_start_prefix(c: Seq<char>, c2: Seq<char>, ps: Seq<int>, p: int, k0: int, k: nat)
    requires
        c2.len() == c.len(),
        0 < p < c.len(),
        forall|x: int| 0 <= x < c.len() && x != p - 1 ==> c2[x] == c[x],
        !is_separator(c[p - 1]),
        is_separator(c2[p - 1]),
        0 <= k0 < ps.len(),
        ps[k0] == p,
        forall|a: int, b: int| 0 <= a < b < ps.len() ==> ps[a] < ps[b],
        k <= ps.len(),
    ensures
        score_prefix(c2, ps, k) == score_prefix(c, ps, k) + (if k > k0 { WORD_START as int } else { 0 }),
    decreases k,
{
    if k > 0 {
        lemma_word_start_prefix(c, c2, ps, p, k0, (k - 1) as nat);
        let x = ps[k - 1];
        if k - 1 != k0 {
            assert(x != p) by {
                if k - 1 < k0 {
                    assert(ps[k - 1] < ps[k0]);
                } else {
                    assert(ps[k0] < ps[k - 1]);
                }
            }
            assert(word_start(c2, x) == word_start(c, x));
        }
    }
}

/// Law: a matched character that starts a word earns the word-start bonus,
/// wherever it stands. Turning the character before a matched position
/// into a separator (`-`, `_`, space, `/`, `.` or `:`), with the match
/// landing on the same positions, raises the score by exactly `WORD_START`.
pub proof fn law_word_start_bonus(q: Seq<char>, c: Seq<char>, p: int, sep: char)
    requires
        0 < p < c.len(),
        sep == '-' || sep == '_' || sep == ' ' || sep == '/' || sep == '.' || sep == ':',
        !(c[p - 1] == '-' || c[p - 1] == '_' || c[p - 1] == ' ' || c[p - 1] == '/' || c[p - 1] == '.' || c[p - 1] == ':'),
        spec_match(q, c) matches Some(m) && m.1.contains(p),
        spec_match(q, c.update(p - 1, sep)) matches Some(m2) && m2.1 == spec_match(q, c).unwrap().1,
    ensures
        spec_match(q, c.update(p - 1, sep)).unwrap().0 == spec_match(q, c).unwrap().0 + WORD_START,
{
    let c2 = c.update(p - 1, sep);
    let ps = spec_match(q, c).unwrap().1;
    lemma_positions_embed(q, c, q.len());
    let k0 = choose|k: int| 0 <= k < ps.len() && ps[k] == p;
    lemma_word_start_prefix(c, c2, ps, p, k0, ps.len());
}

/// Law: how a one- or two-character match is scored. Each matched character
/// earns 16, 20 more at the very start of the candidate, and 10 more at the
/// start of a word (the first character, or one right after `-`, `_`,
/// space, `/`, `.` or `:`); a second character right after the first earns
/// 12 more, and otherwise loses 1 per skipped character; and every
/// candidate character beyond the query's length costs 1.
pub proof fn law_small_query_score(q: Seq<char>, c: Seq<char>)
    requires
        1 <= q.len() <= 2,
        spec_match(q, c) is Some,
    ensures
        ({
            let m = spec_match(q, c).unwrap();
            let ps = m.1;
            let hit = |p: int| 16 + (if p == 0 { 20int } else { 0 })
                + (if p == 0 || c[p - 1] == '-' || c[p - 1] == '_' || c[p - 1] == ' ' || c[p - 1] == '/'
                || c[p - 1] == '.' || c[p - 1] == ':' { 10int } else { 0 });
            let extra = if c.len() > q.len() { c.len() - q.len() } else { 0 };
            &&& q.len() == 1 ==> m.0 == hit(ps[0]) - extra
            &&& q.len() == 2 ==> m.0 == hit(ps[0]) + hit(ps[1])
                + (if ps[1] == ps[0] + 1 { 12int } else { -(ps[1] - ps[0] - 1) }) - extra
        }),
{
    lemma_positions_embed(q, c, q.len());
    let ps = spec_match(q, c).unwrap().1;
    assert(score_prefix(c, ps, 0) == 0);
    assert(score_prefix(c, ps, 1) == step_score(c, ps, 0));
    if q.len() == 2 {
        assert(score_prefix(c, ps, 2) == step_score(c, ps, 0) + step_score(c, ps, 1));
    }
}

/// The first index `j >= from` with `c[j] == qc`.
fn first_occurrence_exec(c: &Vec<char>, qc: char, from: usize) -> (r: Option<usize>)
    requires
        from <= c@.len(),
    ensures
        r matches Some(j) ==> first_occurrence(c@, qc, from as int) == Some(j as int),
        r is None ==> first_occurrence(c@, qc, from as int) is None,
{
    let mut j: usize = from;
    while j < c.len()
        invariant
            from <= j <= c@.len(),
            first_occurrence(c@, qc, from as int) == first_occurrence(c@, qc, j as int),
        decreases c@.len() - j,
    {
        if c[j] == qc {
            return Some(j);
        }
        proof {
            lemma_first_occurrence_skip(c@, qc, j as int, j + 1);
        }
        j = j + 1;
    }
    None
}

/// Whether query chars `k..` can still be matched in order from `from` on.
fn fits_exec(q: &Vec<char>, k: usize, c: &Vec<char>, from: usize) -> (b: bool)
    requires
        from <= c@.len(),
    ensures
        b == fits(q@, k as int, c@, from as int),
{
    let mut kk: usize = k;
    let mut pos: usize = from;
    while kk < q.len()
        invariant
            pos <= c@.len(),
            k <= kk || kk >= q@.len(),
            fits(q@, k as int, c@, from as int) == fits(q@, kk as int, c@, pos as int),
        decreases q@.len() - kk,
    {
        match first_occurrence_exec(c, q[kk], pos) {
            None => {
                return false;
            },
            Some(j) => {
                proof {
                    lemma_found_in_range(c@, q@[kk as int], pos as int, 0);
                }
                let cn = c.len();
                assert(j < cn);
                pos = j + 1;
            },
        }
        kk = kk + 1;
    }
    true
}

/// Find where query char `k` matches, resuming at `from` after a match at `prev`.
fn pick_exec(q: &Vec<char>, k: usize, c: &Vec<char>, from: usize, prev: Option<usize>) -> (r: Option<usize>)
    requires
        k < q@.len(),
        from <= c@.len(),
        prev matches Some(p) ==> p + 1 == from,
        prev is None ==> from == 0,
    ensures
        r matches Some(j) ==> Some(j as int) == pick(q@, k as int, c@, from as int, match prev { Some(p) => p as int, None => -2 }),
        r is None ==> pick(q@, k as int, c@, from as int, match prev { Some(p) => p as int, None => -2 }) is None,
{
    let ghost pv: int = match prev { Some(p) => p as int, None => -2 };
    let qc = q[k];
    let qn = q.len();
    let mut found: Option<usize> = None;
    let mut j: usize = from;
    while j < c.len()
        invariant
            from <= j <= c@.len(),
            qc == q@[k as int],
            qn == q@.len(),
            k < qn,
            pv == match prev { Some(p) => p as int, None => -2 },
            first_preferred(c@, qc, from as int, pv) == first_preferred(c@, qc, j as int, pv),
            found is None ==> first_occurrence(c@, qc, from as int) == first_occurrence(c@, qc, j as int),
            found matches Some(f) ==> Some(f as int) == first_occurrence(c@, qc, from as int) && f < j,
        decreases c@.len() - j,
    {
        if c[j] == qc {
            let continues = match prev {
                Some(p) => j > 0 && p == j - 1,
                None => false,
            };
            if found.is_none() {
                found = Some(j);
            }
            if continues || is_word_start(c.as_slice(), j) {
                if fits_exec(q, k + 1, c, j + 1) {
                    return Some(j);
                }
                return found;
            }
        }
        proof {
            if c@[j as int] != qc {
                lemma_first_occurrence_skip(c@, qc, j as int, j + 1);
            }
            lemma_first_preferred_skip(c@, qc, j as int, j + 1, pv);
        }
        j = j + 1;
    }
    found
}

/// Lowercased positions of `q` in `c`, as the greedy matcher finds them.
fn match_positions_exec(q: &Vec<char>, c: &Vec<char>) -> (r: Option<Vec<usize>>)
    ensures
        r matches Some(v) ==> match_positions(q@, c@, q@.len()) matches Some(ps)
            && v@.len() == ps.len() && forall|i: int| 0 <= i < ps.len() ==> v@[i] as int == ps[i],
        r is None ==> match_positions(q@, c@, q@.len()) is None,
{
    let mut positions: Vec<usize> = Vec::new();
    let mut ci: usize = 0;
    let mut k: usize = 0;
    while k < q.len()
        invariant
            k <= q@.len(),
            match_positions(q@, c@, k as nat) matches Some(ps)
                && positions@.len() == ps.len()
                && forall|i: int| 0 <= i < ps.len() ==> positions@[i] as int == ps[i],
            positions@.len() == k,
            ci <= c@.len(),
            k == 0 ==> ci == 0,
            k > 0 ==> ci == positions@[k - 1] + 1,
        decreases q@.len() - k,
    {
        proof {
            lemma_positions_embed(q@, c@, k as nat);
        }
        let prev = if k == 0 { None } else { Some(positions[k - 1]) };
        let found = pick_exec(q, k, c, ci, prev);
        match found {
            None => {
                proof {
                    let ps = match_positions(q@, c@, k as nat).unwrap();
                    assert(ps.len() == 0 ==> k == 0);
                    if ps.len() > 0 {
                        assert(ps.last() == positions@[k - 1]);
                    }
                }
                assert(match_positions(q@, c@, (k + 1) as nat) is None);
                proof {
                    lemma_none_stays(q@, c@, (k + 1) as nat, q@.len());
                }
                return None;
            },
            Some(j) => {
                proof {
                    let ps = match_positions(q@, c@, k as nat).unwrap();
                    if ps.len() > 0 {
                        assert(ps.last() == positions@[k - 1]);
                    }
                    lemma_found_in_range(c@, q@[k as int], ci as int, match prev { Some(p) => p as int, None => -2 });
                    assert(j < c@.len());
                }
                let clen = c.len();
                assert(j < clen);
                positions.push(j);
                ci = j + 1;
            },
        }
        k = k + 1;
    }
    Some(positions)
}

proof fn lemma_none_stays(q: Seq<char>, c: Seq<char>, k: nat, n: nat)
    requires
        k <= n,
        match_positions(q, c, k) is None,
    ensures
        match_positions(q, c, n) is None,
    decreases n - k,
{
    if k < n {
        lemma_none_stays(q, c, k + 1, n);
    }
}

proof fn lemma_score_bounds(c: Seq<char>, ps: Seq<int>, k: nat)
    requires
        k <= ps.len(),
        forall|i: int| 0 <= i < ps.len() ==> 0 <= #[trigger] ps[i] < c.len(),
        forall|i: int, j: int| 0 <= i < j < ps.len() ==> ps[i] < ps[j],
    ensures
        score_prefix(c, ps, k) <= 58 * k,
        k > 0 ==> score_prefix(c, ps, k) >= -ps[k - 1],
    decreases k,
{
    if k > 0 {
        lemma_score_bounds(c, ps, (k - 1) as nat);
    }
}

/// Match `query` against `candidate`. Returns `None` if `query` isn't a
/// subsequence. An empty query matches nothing (the menu stays closed).
pub fn fuzzy_match(query: &str, candidate: &str) -> (r: Option<FuzzyMatch>)
    ensures
        r is None <==> spec_fuzzy(query@, candidate@) is None,
        r is Some <==> lowercase(query@).len() > 0 && in_order(lowercase(query@), lowercase(candidate@)),
        r matches Some(m) ==> match_is(m, spec_fuzzy(query@, candidate@).unwrap()),
{
    proof {
        law_match_iff_in_order(query@, candidate@);
    }
    let ql = to_lower(query);
    let q = chars_of(ql.as_str());
    if q.len() == 0 {
        return None;
    }
    let cl = to_lower(candidate);
    let c = chars_of(cl.as_str());
    let positions = match match_positions_exec(&q, &c) {
        None => return None,
        Some(p) => p,
    };
    let ghost ps = match_positions(q@, c@, q@.len()).unwrap();
    proof {
        lemma_positions_embed(q@, c@, q@.len());
    }
    let mut score: i128 = 0;
    let mut k: usize = 0;
    while k < positions.len()
        invariant
            positions@.len() == ps.len() == q@.len(),
            forall|i: int| 0 <= i < ps.len() ==> positions@[i] as int == ps[i],
            is_embedding(q@, c@, ps),
            k <= ps.len(),
            score == score_prefix(c@, ps, k as nat),
        decreases ps.len() - k,
    {
        proof {
            lemma_score_bounds(c@, ps, k as nat);
        }
        let p = positions[k];
        proof {
            assert(0 <= ps[k as int] < c@.len());
            if k > 0 {
                assert(ps[k - 1] < ps[k as int]);
            }
        }
        score = score + MATCH as i128;
        if p == 0 {
            score = score + FIRST_CHAR as i128;
        }
        if is_word_start(c.as_slice(), p) {
            score = score + WORD_START as i128;
        }
        if k > 0 {
            let prev = positions[k - 1];
            if p == prev + 1 {
                score = score + CONSECUTIVE as i128;
            } else {
                score = score + (GAP as i128) * ((p - prev - 1) as i128);
            }
        }
        k = k + 1;
    }
    let extra: i128 = if c.len() > q.len() { (c.len() - q.len()) as i128 } else { 0 };
    proof {
        lemma_score_bounds(c@, ps, ps.len());
    }
    score = score - extra;
    Some(FuzzyMatch { score: score as i32, positions })
}

/// Sort key of a matching candidate: best score first, then alphabetical.
pub open spec fn rank_key(query: Seq<char>, cand: Seq<char>) -> (int, Seq<char>) {
    (-((spec_fuzzy(query, cand).unwrap().0 as i32) as int), cand)
}

/// Candidate `i` is ranked before candidate `j`.
pub open spec fn rank_before(query: Seq<char>, cands: Seq<Seq<char>>, i: int, j: int) -> bool {
    key_lt(rank_key(query, cands[i]), rank_key(query, cands[j]))
        || (rank_key(query, cands[i]) == rank_key(query, cands[j]) && i < j)
}

/// Candidate `i` matches the query.
pub open spec fn is_match(query: Seq<char>, cands: Seq<Seq<char>>, i: int) -> bool {
    0 <= i < cands.len() && spec_fuzzy(query, cands[i]) is Some
}

/// `idx` is the ranking of `cands` against `query`: exactly the matching
/// candidates, best score first, ties alphabetical, equal rows in input order.
pub open spec fn is_ranking(query: Seq<char>, cands: Seq<Seq<char>>, idx: Seq<int>) -> bool {
    &&& forall|k: int| 0 <= k < idx.len() ==> is_match(query, cands, #[trigger] idx[k])
    &&& forall|i: int| is_match(query, cands, i) ==> exists|k: int| 0 <= k < idx.len() && #[trigger] idx[k] == i
    &&& forall|a: int, b: int| 0 <= a < b < idx.len() ==> rank_before(query, cands, #[trigger] idx[a], #[trigger] idx[b])
}

/// The characters of each candidate.
pub open spec fn views(cands: Seq<String>) -> Seq<Seq<char>> {
    cands.map_values(|s: String| s@)
}

fn copy_match(m: &FuzzyMatch) -> (r: FuzzyMatch)
    ensures
        r.score == m.score,
        r.positions@ == m.positions@,
{
    let mut positions: Vec<usize> = Vec::new();
    let mut i: usize = 0;
    while i < m.positions.len()
        invariant
            i <= m.positions@.len(),
            positions@ == m.positions@.subrange(0, i as int),
        decreases m.positions@.len() - i,
    {
        positions.push(m.positions[i]);
        i = i + 1;
    }
    assert(positions@ =~= m.positions@);
    FuzzyMatch { score: m.score, positions }
}

/// Rank `candidates` against `query`, best first; ties break alphabetically.
pub fn rank<'a>(query: &str, candidates: &'a Vec<String>) -> (r: Vec<(&'a String, FuzzyMatch)>)
    ensures
        exists|idx: Seq<int>| {
            &&& is_ranking(query@, views(candidates@), idx)
            &&& idx.len() == r@.len()
            &&& forall|k: int| 0 <= k < idx.len() ==> {
                &&& *r@[k].0 == candidates@[idx[k]]
                &&& match_is(r@[k].1, spec_fuzzy(query@, candidates@[idx[k]]@).unwrap())
            }
        },
{
    let ghost cs = views(candidates@);
    let n = candidates.len();
    let mut mi: Vec<usize> = Vec::new();
    let mut ms: Vec<FuzzyMatch> = Vec::new();
    let mut keys: Vec<SortKey> = Vec::new();
    let mut i: usize = 0;
    while i < n
        invariant
            n == candidates@.len(),
            cs == views(candidates@),
            i <= n,
            mi@.len() == ms@.len() == keys@.len(),
            forall|a: int, b: int| 0 <= a < b < mi@.len() ==> mi@[a] < mi@[b],
            forall|t: int| 0 <= t < mi@.len() ==> #[trigger] mi@[t] < i && is_match(query@, cs, mi@[t] as int),
            forall|j: int| 0 <= j < i && is_match(query@, cs, j) ==> exists|t: int| 0 <= t < mi@.len() && mi@[t] == j,
            forall|t: int| 0 <= t < mi@.len() ==> match_is(#[trigger] ms@[t], spec_fuzzy(query@, cs[mi@[t] as int]).unwrap()),
            forall|t: int| 0 <= t < mi@.len() ==> (#[trigger] keys@[t]).spec_key() == rank_key(query@, cs[mi@[t] as int]),
        decreases n - i,
    {
        let cand = candidates[i].as_str();
        let ghost old_mi = mi@;
        match fuzzy_match(query, cand) {
            Some(m) => {
                let text = chars_of(cand);
                keys.push(SortKey { num: -(m.score as i128), text });
                mi.push(i);
                ms.push(m);
                proof {
                    let t = mi@.len() - 1;
                    assert(mi@[t] == i);
                    assert(is_match(query@, cs, i as int));
                }
            },
            None => {
                proof {
                    assert(!is_match(query@, cs, i as int));
                }
            },
        }
        proof {
            assert forall|j: int| 0 <= j < i + 1 && is_match(query@, cs, j) implies exists|t: int| 0 <= t < mi@.len() && mi@[t] == j by {
                if j == i {
                    assert(mi@[mi@.len() - 1] == i);
                } else {
                    let t = choose|t: int| 0 <= t < old_mi.len() && old_mi[t] == j;
                    assert(mi@[t] == old_mi[t]);
                }
            }
        }
        i = i + 1;
    }
    let perm = stable_order(&keys);
    let ghost ks = key_seq(keys@);
    proof {
        lemma_distinct_below_covers(perm@, keys@.len() as int);
    }
    let ghost idx = perm@.map_values(|t: usize| mi@[t as int] as int);
    let mut out: Vec<(&'a String, FuzzyMatch)> = Vec::new();
    let mut k: usize = 0;
    while k < perm.len()
        invariant
            perm@.len() == keys@.len() == mi@.len() == ms@.len(),
            forall|a: int| 0 <= a < perm@.len() ==> #[trigger] perm@[a] < mi@.len(),
            idx == perm@.map_values(|t: usize| mi@[t as int] as int),
            forall|t: int| 0 <= t < mi@.len() ==> #[trigger] mi@[t] < n && is_match(query@, cs, mi@[t] as int),
            forall|t: int| 0 <= t < mi@.len() ==> match_is(#[trigger] ms@[t], spec_fuzzy(query@, cs[mi@[t] as int]).unwrap()),
            n == candidates@.len(),
            cs == views(candidates@),
            k <= perm@.len(),
            out@.len() == k,
            forall|a: int| 0 <= a < k ==> {
                &&& *out@[a].0 == candidates@[idx[a]]
                &&& match_is(out@[a].1, spec_fuzzy(query@, candidates@[idx[a]]@).unwrap())
            },
        decreases perm@.len() - k,
    {
        let t = perm[k];
        let j = mi[t];
        let m = copy_match(&ms[t]);
        out.push((&candidates[j], m));
        k = k + 1;
    }
    proof {
        assert(is_ranking(query@, cs, idx)) by {
            assert forall|a: int| 0 <= a < idx.len() implies is_match(query@, cs, #[trigger] idx[a]) by {
                assert(perm@[a] < mi@.len());
            }
            assert forall|j: int| is_match(query@, cs, j) implies exists|a: int| 0 <= a < idx.len() && #[trigger] idx[a] == j by {
                let t = choose|t: int| 0 <= t < mi@.len() && mi@[t] == j;
                assert(in_list(perm@, t));
                let a = choose|a: int| 0 <= a < perm@.len() && perm@[a] as int == t;
                assert(idx[a] == j);
            }
            assert forall|a: int, b: int| 0 <= a < b < idx.len() implies rank_before(query@, cs, #[trigger] idx[a], #[trigger] idx[b]) by {
                let ta = perm@[a] as int;
                let tb = perm@[b] as int;
                assert(before(ks, ta, tb));
                assert(ks[ta] == keys@[ta].spec_key());
                assert(ks[tb] == keys@[tb].spec_key());
                if ta < tb {
                    assert(mi@[ta] < mi@[tb]);
                }
            }
        }
    }
    out
}

} // verus!
