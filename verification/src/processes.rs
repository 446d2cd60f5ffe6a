//! The process table: entries, the search filter, the selection and the
//! stable re-sorting by the chosen column.
use vstd::prelude::*;
use crate::text::{
    chars_of, contains_chars, contains_text, decimal, push_decimal, spec_lowercase,
    str_to_lowercase,
};

verus! {

/// One row of the process table. `cpu_order` ranks CPU usage: a higher
/// value means a higher usage, equal values equal usage.
#[derive(Debug, Clone)]
pub struct ProcessEntry {
    pub pid: u32,
    pub parent_pid: Option<u32>,
    pub name: String,
    pub cpu_order: u32,
    pub memory_bytes: u64,
    pub read_bytes: u64,
    pub written_bytes: u64,
    pub status: String,
    pub cmd: String,
}

/// Column by which the process table is ordered.
#[derive(Debug, Clone, Copy, PartialEq, Eq, Structural)]
pub enum ProcessSortBy {
    Cpu,
    Memory,
    Pid,
    Name,
}

/// The column that follows `s` when the user cycles the sort order.
pub open spec fn sort_after(s: ProcessSortBy) -> ProcessSortBy {
    match s {
        ProcessSortBy::Cpu => ProcessSortBy::Memory,
        ProcessSortBy::Memory => ProcessSortBy::Pid,
        ProcessSortBy::Pid => ProcessSortBy::Name,
        ProcessSortBy::Name => ProcessSortBy::Cpu,
    }
}

impl ProcessSortBy {
    /// The next sort column: CPU, memory, PID, name, then CPU again.
    pub fn next(self) -> (n: ProcessSortBy)
        ensures
            n == sort_after(self),
    {
        match self {
            ProcessSortBy::Cpu => ProcessSortBy::Memory,
            ProcessSortBy::Memory => ProcessSortBy::Pid,
            ProcessSortBy::Pid => ProcessSortBy::Name,
            ProcessSortBy::Name => ProcessSortBy::Cpu,
        }
    }
}

/// Lexicographic order of texts by character code (the order of `String`).
pub open spec fn lex_lt(a: Seq<char>, b: Seq<char>) -> bool
    decreases a.len(),
{
    if a.len() == 0 {
        b.len() > 0
    } else if b.len() == 0 {
        false
    } else if a[0] != b[0] {
        (a[0] as int) < (b[0] as int)
    } else {
        lex_lt(a.drop_first(), b.drop_first())
    }
}

proof fn lemma_lex_irrefl(a: Seq<char>)
    ensures
        !lex_lt(a, a),
    decreases a.len(),
{
    if a.len() > 0 {
        lemma_lex_irrefl(a.drop_first());
    }
}

proof fn lemma_lex_total(a: Seq<char>, b: Seq<char>)
    ensures
        a == b || lex_lt(a, b) || lex_lt(b, a),
    decreases a.len(),
{
    if a.len() > 0 && b.len() > 0 && a[0] == b[0] {
        lemma_lex_total(a.drop_first(), b.drop_first());
        if a.drop_first() == b.drop_first() {
            assert(a =~= seq![a[0]] + a.drop_first());
            assert(b =~= seq![b[0]] + b.drop_first());
        }
    } else if a.len() > 0 && b.len() > 0 {
        assert((a[0] as int) != (b[0] as int));
    } else if a.len() == 0 && b.len() == 0 {
        assert(a =~= b);
    }
}

proof fn lemma_lex_trans(a: Seq<char>, b: Seq<char>, c: Seq<char>)
    requires
        lex_lt(a, b),
        lex_lt(b, c),
    ensures
        lex_lt(a, c),
    decreases a.len(),
{
    if a.len() > 0 && b.len() > 0 && c.len() > 0 && a[0] == b[0] && b[0] == c[0] {
        lemma_lex_trans(a.drop_first(), b.drop_first(), c.drop_first());
    }
}

/// Ascending order of `String` values, in which the process table sorts by
/// name (of the lowercase names).
pub fn lex_less(a: &Vec<char>, b: &Vec<char>) -> (r: bool)
    ensures
        r == lex_lt(a@, b@),
{
    let mut i: usize = 0;
    assert(a@.skip(0) =~= a@ && b@.skip(0) =~= b@);
    while i < a.len() && i < b.len()
        invariant
            i <= a@.len(),
            i <= b@.len(),
            a@.subrange(0, i as int) == b@.subrange(0, i as int),
            lex_lt(a@, b@) == lex_lt(a@.skip(i as int), b@.skip(i as int)),
        decreases a.len() - i,
    {
        if a[i] != b[i] {
            proof {
                assert(a@.skip(i as int)[0] == a@[i as int]);
                assert(b@.skip(i as int)[0] == b@[i as int]);
            }
            return a[i] < b[i];
        }
        proof {
            assert(a@.skip(i as int).drop_first() =~= a@.skip(i + 1));
            assert(b@.skip(i as int).drop_first() =~= b@.skip(i + 1));
            assert(a@.subrange(0, i + 1) =~= a@.subrange(0, i as int).push(a@[i as int]));
            assert(b@.subrange(0, i + 1) =~= b@.subrange(0, i as int).push(b@[i as int]));
        }
        i = i + 1;
    }
    proof {
        assert(a@.skip(i as int).len() == 0 || b@.skip(i as int).len() == 0);
    }
    i == a.len() && i < b.len()
}

/// `a` comes strictly before `b` in the table ordered by `by`: higher CPU
/// usage first, larger memory first, smaller PID first, or the lowercase
/// name first in character order.
pub open spec fn precedes(by: ProcessSortBy, a: ProcessEntry, b: ProcessEntry) -> bool {
    match by {
        ProcessSortBy::Cpu => a.cpu_order > b.cpu_order,
        ProcessSortBy::Memory => a.memory_bytes > b.memory_bytes,
        ProcessSortBy::Pid => a.pid < b.pid,
        ProcessSortBy::Name => lex_lt(spec_lowercase(a.name@), spec_lowercase(b.name@)),
    }
}

proof fn lemma_precedes_chain(by: ProcessSortBy, x: ProcessEntry, y: ProcessEntry, z: ProcessEntry)
    requires
        precedes(by, x, y),
        precedes(by, y, z) || !precedes(by, z, y),
    ensures
        precedes(by, x, z),
{
    if by == ProcessSortBy::Name {
        let (kx, ky, kz) = (
            spec_lowercase(x.name@),
            spec_lowercase(y.name@),
            spec_lowercase(z.name@),
        );
        lemma_lex_total(ky, kz);
        if lex_lt(ky, kz) {
            lemma_lex_trans(kx, ky, kz);
        }
    }
}

/// `perm` lists each index below `n` exactly once.
pub open spec fn is_permutation(perm: Seq<int>, n: nat) -> bool {
    &&& perm.len() == n
    &&& forall|i: int| 0 <= i < n ==> 0 <= #[trigger] perm[i] < n
    &&& forall|i: int, j: int| 0 <= i < j < n ==> perm[i] != perm[j]
}

/// `r` is `input` reordered by `perm`, sorted by `by`, with rows of equal
/// rank kept in their input order (a stable sort).
pub open spec fn stable_sorted_by(
    input: Seq<ProcessEntry>,
    r: Seq<ProcessEntry>,
    by: ProcessSortBy,
    perm: Seq<int>,
) -> bool {
    &&& r.len() == input.len()
    &&& is_permutation(perm, input.len())
    &&& forall|i: int| 0 <= i < r.len() ==> r[i] == input[#[trigger] perm[i]]
    &&& forall|i: int, j: int|
        0 <= i < j < r.len() ==> #[trigger] precedes(by, r[i], r[j]) || (!precedes(by, r[j], r[i])
            && perm[i] < perm[j])
}

/// Row `a` of `input` comes before row `b` in the stable order by `by`.
pub open spec fn ranks_before(input: Seq<ProcessEntry>, by: ProcessSortBy, a: int, b: int) -> bool {
    precedes(by, input[a], input[b]) || (!precedes(by, input[b], input[a]) && a < b)
}

proof fn lemma_precedes_asym(by: ProcessSortBy, x: ProcessEntry, y: ProcessEntry)
    ensures
        !(precedes(by, x, y) && precedes(by, y, x)),
{
    if by == ProcessSortBy::Name && precedes(by, x, y) && precedes(by, y, x) {
        lemma_lex_trans(spec_lowercase(x.name@), spec_lowercase(y.name@), spec_lowercase(x.name@));
        lemma_lex_irrefl(spec_lowercase(x.name@));
    }
}

/// Two duplicate-free sequences over the same elements, both strictly
/// increasing in the stable order, are equal.
proof fn lemma_sorted_indices_unique(
    input: Seq<ProcessEntry>,
    by: ProcessSortBy,
    s1: Seq<int>,
    s2: Seq<int>,
)
    requires
        s1.len() == s2.len(),
        s1.to_set() == s2.to_set(),
        s1.no_duplicates(),
        s2.no_duplicates(),
        forall|i: int, j: int| 0 <= i < j < s1.len() ==> ranks_before(input, by, s1[i], s1[j]),
        forall|i: int, j: int| 0 <= i < j < s2.len() ==> ranks_before(input, by, s2[i], s2[j]),
    ensures
        s1 == s2,
    decreases s1.len(),
{
    if s1.len() > 0 {
        let a = s1[0];
        let b = s2[0];
        assert(s1.to_set().contains(a));
        assert(s2.to_set().contains(b));
        if a != b {
            let k = choose|k: int| 0 <= k < s1.len() && s1[k] == b;
            let m = choose|m: int| 0 <= m < s2.len() && s2[m] == a;
            assert(ranks_before(input, by, a, b));
            assert(ranks_before(input, by, b, a));
            lemma_precedes_asym(by, input[a], input[b]);
            assert(false);
        }
        let t1 = s1.drop_first();
        let t2 = s2.drop_first();
        assert(t1.to_set() =~= t2.to_set()) by {
            assert forall|x: int| t1.to_set().contains(x) implies t2.to_set().contains(x) by {
                let i = choose|i: int| 0 <= i < t1.len() && t1[i] == x;
                assert(s1[i + 1] == x);
                assert(s2.to_set().contains(x));
                let j = choose|j: int| 0 <= j < s2.len() && s2[j] == x;
                if j == 0 {
                    assert(s1[0] == s1[i + 1]);
                }
                assert(t2[j - 1] == x);
            }
            assert forall|x: int| t2.to_set().contains(x) implies t1.to_set().contains(x) by {
                let i = choose|i: int| 0 <= i < t2.len() && t2[i] == x;
                assert(s2[i + 1] == x);
                assert(s1.to_set().contains(x));
                let j = choose|j: int| 0 <= j < s1.len() && s1[j] == x;
                if j == 0 {
                    assert(s2[0] == s2[i + 1]);
                }
                assert(t1[j - 1] == x);
            }
        }
        lemma_sorted_indices_unique(input, by, t1, t2);
        assert(s1 =~= seq![a] + t1);
        assert(s2 =~= seq![b] + t2);
    }
}

/// A stable sort by `by` has a single possible result.
pub proof fn lemma_stable_sort_unique(
    input: Seq<ProcessEntry>,
    by: ProcessSortBy,
    r1: Seq<ProcessEntry>,
    p1: Seq<int>,
    r2: Seq<ProcessEntry>,
    p2: Seq<int>,
)
    requires
        stable_sorted_by(input, r1, by, p1),
        stable_sorted_by(input, r2, by, p2),
    ensures
        r1 == r2,
{
    let n = input.len();
    assert forall|i: int, j: int| 0 <= i < j < n implies ranks_before(input, by, p1[i], p1[j]) by {
        assert(precedes(by, r1[i], r1[j]) || (!precedes(by, r1[j], r1[i]) && p1[i] < p1[j]));
    }
    assert forall|i: int, j: int| 0 <= i < j < n implies ranks_before(input, by, p2[i], p2[j]) by {
        assert(precedes(by, r2[i], r2[j]) || (!precedes(by, r2[j], r2[i]) && p2[i] < p2[j]));
    }
    assert(p1.no_duplicates());
    assert(p2.no_duplicates());
    lemma_permutation_set(p1, n);
    lemma_permutation_set(p2, n);
    lemma_sorted_indices_unique(input, by, p1, p2);
    assert forall|i: int| 0 <= i < n implies r1[i] == r2[i] by {
        assert(r1[i] == input[p1[i]]);
        assert(r2[i] == input[p2[i]]);
    }
    assert(r1 =~= r2);
}

proof fn lemma_permutation_set(p: Seq<int>, n: nat)
    requires
        is_permutation(p, n),
    ensures
        p.to_set() == Set::new(|x: int| 0 <= x < n),
{
    let target = Set::new(|x: int| 0 <= x < n);
    assert(p.to_set().subset_of(target));
    assert(p.no_duplicates());
    p.unique_seq_to_set();
    vstd::set_lib::lemma_int_range(0, n as int);
    assert(target =~= vstd::set_lib::set_int_range(0, n as int));
    vstd::set_lib::lemma_subset_equality(p.to_set(), target);
}

/// Reordering rows does not change how many of them match a search.
pub proof fn lemma_permutation_keeps_matches(s: Seq<ProcessEntry>, t: Seq<ProcessEntry>, perm: Seq<int>, query: Seq<char>)
    requires
        is_permutation(perm, s.len()),
        t.len() == s.len(),
        forall|i: int| 0 <= i < t.len() ==> t[i] == s[#[trigger] perm[i]],
    ensures
        filtered(t, query).len() == filtered(s, query).len(),
    decreases s.len(),
{
    let n = s.len();
    if n > 0 {
        let pred = |p: ProcessEntry| matches_query(p, query);
        lemma_permutation_set(perm, n);
        assert(Set::new(|x: int| 0 <= x < n).contains(n - 1));
        assert(perm.to_set().contains(n - 1));
        let j = choose|j: int| 0 <= j < perm.len() && perm[j] == n - 1;
        let t2 = t.remove(j);
        let p2 = perm.remove(j);
        let s2 = s.drop_last();
        assert forall|i: int| 0 <= i < n - 1 implies 0 <= #[trigger] p2[i] < n - 1 by {
            if i < j {
                assert(p2[i] == perm[i]);
            } else {
                assert(p2[i] == perm[i + 1]);
            }
        }
        assert forall|a: int, b: int| 0 <= a < b < n - 1 implies p2[a] != p2[b] by {
            let a1 = if a < j { a } else { a + 1 };
            let b1 = if b < j { b } else { b + 1 };
            assert(p2[a] == perm[a1] && p2[b] == perm[b1]);
        }
        assert forall|i: int| 0 <= i < t2.len() implies t2[i] == s2[#[trigger] p2[i]] by {
            if i < j {
                assert(t2[i] == t[i] && p2[i] == perm[i]);
            } else {
                assert(t2[i] == t[i + 1] && p2[i] == perm[i + 1]);
            }
        }
        lemma_permutation_keeps_matches(s2, t2, p2, query);
        // t splits around position j
        let a = t.subrange(0, j);
        let b = t.subrange(j + 1, n as int);
        assert(t =~= a + (seq![t[j]] + b));
        assert(t2 =~= a + b);
        Seq::filter_distributes_over_add(a, seq![t[j]] + b, pred);
        Seq::filter_distributes_over_add(a, b, pred);
        b.lemma_filter_prepend(t[j], pred);
        assert(s =~= s2.push(s[n - 1]));
        s2.lemma_filter_push(s[n - 1], pred);
        assert(t[j] == s[n - 1]);
    }
}

/// The stable order keeps the number of rows that match any search.
pub proof fn lemma_sort_keeps_matches(input: Seq<ProcessEntry>, by: ProcessSortBy, query: Seq<char>)
    ensures
        filtered(sorted_rows(input, by), query).len() == filtered(input, query).len(),
{
    lemma_stable_sort_exists(input, by);
    let r = sorted_rows(input, by);
    let perm = choose|perm: Seq<int>| stable_sorted_by(input, r, by, perm);
    lemma_permutation_keeps_matches(input, r, perm, query);
}

/// The stable order of `input` by `by`.
pub open spec fn sorted_rows(input: Seq<ProcessEntry>, by: ProcessSortBy) -> Seq<ProcessEntry> {
    choose|r: Seq<ProcessEntry>| #[trigger] is_stable_sort(input, r, by)
}

/// `r` is a stable sort of `input` by `by`.
pub open spec fn is_stable_sort(input: Seq<ProcessEntry>, r: Seq<ProcessEntry>, by: ProcessSortBy) -> bool {
    exists|perm: Seq<int>| #[trigger] stable_sorted_by(input, r, by, perm)
}

/// The lowercase name by which rows are sorted by name.
fn sort_name(p: &ProcessEntry) -> (v: Vec<char>)
    ensures
        v@ == spec_lowercase(p.name@),
{
    let l = str_to_lowercase(p.name.as_str());
    chars_of(l.as_str())
}

fn precedes_exec(by: ProcessSortBy, a: &ProcessEntry, b: &ProcessEntry) -> (r: bool)
    ensures
        r == precedes(by, *a, *b),
{
    match by {
        ProcessSortBy::Cpu => a.cpu_order > b.cpu_order,
        ProcessSortBy::Memory => a.memory_bytes > b.memory_bytes,
        ProcessSortBy::Pid => a.pid < b.pid,
        ProcessSortBy::Name => {
            let ka = sort_name(a);
            let kb = sort_name(b);
            lex_less(&ka, &kb)
        },
    }
}

/// `r` with `perm` is a stable sort of the first `k` rows of `orig`.
pub open spec fn sorted_prefix(
    orig: Seq<ProcessEntry>,
    k: int,
    r: Seq<ProcessEntry>,
    perm: Seq<int>,
    by: ProcessSortBy,
) -> bool {
    &&& r.len() == k
    &&& perm.len() == k
    &&& forall|i: int| 0 <= i < k ==> 0 <= #[trigger] perm[i] < k
    &&& forall|i: int, j: int| 0 <= i < j < k ==> perm[i] != perm[j]
    &&& forall|i: int| 0 <= i < k ==> r[i] == orig[#[trigger] perm[i]]
    &&& forall|i: int, j: int|
        0 <= i < j < k ==> #[trigger] precedes(by, r[i], r[j]) || (!precedes(by, r[j], r[i])
            && perm[i] < perm[j])
}

/// Inserting row `k` of `orig` before the first sorted row that it precedes
/// extends a stable sort of the first `k` rows to the first `k + 1`.
proof fn lemma_insert_step(
    orig: Seq<ProcessEntry>,
    k: int,
    r: Seq<ProcessEntry>,
    perm: Seq<int>,
    by: ProcessSortBy,
    p: int,
)
    requires
        0 <= k < orig.len(),
        sorted_prefix(orig, k, r, perm, by),
        0 <= p <= r.len(),
        forall|i: int| 0 <= i < p ==> !precedes(by, orig[k], #[trigger] r[i]),
        p < r.len() ==> precedes(by, orig[k], r[p]),
    ensures
        sorted_prefix(orig, k + 1, r.insert(p, orig[k]), perm.insert(p, k), by),
{
    let x = orig[k];
    let nr = r.insert(p, x);
    let np = perm.insert(p, k);
    assert forall|j: int| p < j < r.len() implies precedes(by, x, #[trigger] r[j]) by {
        assert(precedes(by, r[p], r[j]) || (!precedes(by, r[j], r[p]) && perm[p] < perm[j]));
        lemma_precedes_chain(by, x, r[p], r[j]);
    }
    assert forall|i: int| 0 <= i < k + 1 implies 0 <= #[trigger] np[i] < k + 1 by {
        if i > p {
            assert(np[i] == perm[i - 1]);
        }
    }
    assert forall|i: int, j: int| 0 <= i < j < k + 1 implies np[i] != np[j] by {
        if i < p && j > p {
            assert(np[j] == perm[j - 1]);
        } else if i > p {
            assert(np[i] == perm[i - 1] && np[j] == perm[j - 1]);
        }
    }
    assert forall|i: int| 0 <= i < k + 1 implies nr[i] == orig[#[trigger] np[i]] by {
        if i > p {
            assert(nr[i] == r[i - 1] && np[i] == perm[i - 1]);
        }
    }
    assert forall|i: int, j: int| 0 <= i < j < k + 1 implies #[trigger] precedes(by, nr[i], nr[j])
        || (!precedes(by, nr[j], nr[i]) && np[i] < np[j]) by {
        if j < p {
            assert(nr[i] == r[i] && nr[j] == r[j]);
        } else if j == p {
            assert(nr[i] == r[i]);
        } else if i < p {
            assert(nr[i] == r[i] && nr[j] == r[j - 1] && np[j] == perm[j - 1]);
        } else if i == p {
            assert(nr[j] == r[j - 1]);
        } else {
            assert(nr[i] == r[i - 1] && nr[j] == r[j - 1]);
            assert(np[i] == perm[i - 1] && np[j] == perm[j - 1]);
        }
    }
}

/// Where a row goes in a sorted table: before the first row it precedes.
pub open spec fn insert_pos(r: Seq<ProcessEntry>, x: ProcessEntry, by: ProcessSortBy) -> int
    decreases r.len(),
{
    if r.len() == 0 || precedes(by, x, r[0]) {
        0
    } else {
        1 + insert_pos(r.drop_first(), x, by)
    }
}

proof fn lemma_insert_pos(r: Seq<ProcessEntry>, x: ProcessEntry, by: ProcessSortBy)
    ensures
        0 <= insert_pos(r, x, by) <= r.len(),
        forall|i: int| 0 <= i < insert_pos(r, x, by) ==> !precedes(by, x, #[trigger] r[i]),
        insert_pos(r, x, by) < r.len() ==> precedes(by, x, r[insert_pos(r, x, by)]),
    decreases r.len(),
{
    if r.len() > 0 && !precedes(by, x, r[0]) {
        let t = r.drop_first();
        lemma_insert_pos(t, x, by);
        assert forall|i: int| 0 <= i < insert_pos(r, x, by) implies !precedes(by, x, #[trigger] r[i]) by {
            if i > 0 {
                assert(r[i] == t[i - 1]);
            }
        }
    }
}

/// Every sequence of rows has a stable sort by any column.
pub proof fn lemma_stable_sort_exists(input: Seq<ProcessEntry>, by: ProcessSortBy)
    ensures
        is_stable_sort(input, sorted_rows(input, by), by),
{
    let (r, perm) = lemma_prefix_sort(input, input.len() as int, by);
    assert(stable_sorted_by(input, r, by, perm));
    assert(is_stable_sort(input, r, by));
}

proof fn lemma_prefix_sort(orig: Seq<ProcessEntry>, k: int, by: ProcessSortBy) -> (res: (Seq<ProcessEntry>, Seq<int>))
    requires
        0 <= k <= orig.len(),
    ensures
        sorted_prefix(orig, k, res.0, res.1, by),
    decreases k,
{
    if k == 0 {
        (Seq::empty(), Seq::empty())
    } else {
        let (r, perm) = lemma_prefix_sort(orig, k - 1, by);
        let p = insert_pos(r, orig[k - 1], by);
        lemma_insert_pos(r, orig[k - 1], by);
        lemma_insert_step(orig, k - 1, r, perm, by, p);
        (r.insert(p, orig[k - 1]), perm.insert(p, k - 1))
    }
}

/// Sorts the rows by `by`, keeping rows of equal rank in their order.
pub fn sort_processes(procs: Vec<ProcessEntry>, by: ProcessSortBy) -> (r: Vec<ProcessEntry>)
    ensures
        r@ == sorted_rows(procs@, by),
{
    let ghost orig = procs@;
    let n = procs.len();
    let mut input = procs;
    let mut r: Vec<ProcessEntry> = Vec::new();
    let ghost mut perm: Seq<int> = Seq::empty();
    let mut k: usize = 0;
    while k < n
        invariant
            n == orig.len(),
            k <= n,
            input@ == orig.subrange(k as int, n as int),
            sorted_prefix(orig, k as int, r@, perm, by),
        decreases n - k,
    {
        let x = input.remove(0);
        assert(x == orig[k as int]);
        let mut p: usize = 0;
        while p < r.len() && !precedes_exec(by, &x, &r[p])
            invariant
                p <= r@.len(),
                forall|i: int| 0 <= i < p ==> !precedes(by, x, #[trigger] r@[i]),
            decreases r.len() - p,
        {
            p = p + 1;
        }
        proof {
            lemma_insert_step(orig, k as int, r@, perm, by, p as int);
            perm = perm.insert(p as int, k as int);
            assert(input@ =~= orig.subrange(k + 1, n as int));
        }
        r.insert(p, x);
        k = k + 1;
    }
    proof {
        assert(stable_sorted_by(orig, r@, by, perm));
        assert(is_stable_sort(orig, r@, by));
        let c = sorted_rows(orig, by);
        let cp = choose|cp: Seq<int>| stable_sorted_by(orig, c, by, cp);
        lemma_stable_sort_unique(orig, by, r@, perm, c, cp);
    }
    r
}

/// The row matches the search text: empty text matches every row; otherwise
/// the lowercase name contains the lowercase text, or the PID's decimal
/// digits contain the text.
pub open spec fn matches_query(p: ProcessEntry, query: Seq<char>) -> bool {
    query.len() == 0 || contains_text(spec_lowercase(p.name@), spec_lowercase(query))
        || contains_text(decimal(p.pid as nat), query)
}

/// The rows that match the search text, in table order.
pub open spec fn filtered(procs: Seq<ProcessEntry>, query: Seq<char>) -> Seq<ProcessEntry> {
    procs.filter(|p: ProcessEntry| matches_query(p, query))
}

/// Whether the row matches the search text.
pub fn process_matches(p: &ProcessEntry, query: &str) -> (r: bool)
    ensures
        r == matches_query(*p, query@),
{
    if query.is_empty() {
        return true;
    }
    let name = chars_of(str_to_lowercase(p.name.as_str()).as_str());
    let q = chars_of(str_to_lowercase(query).as_str());
    if contains_chars(&name, &q) {
        return true;
    }
    let mut pid_text = String::new();
    push_decimal(&mut pid_text, p.pid as u128);
    let pid_chars = chars_of(pid_text.as_str());
    let raw_query = chars_of(query);
    contains_chars(&pid_chars, &raw_query)
}

/// Number of rows that match the search text.
pub fn count_matching(procs: &Vec<ProcessEntry>, query: &str) -> (n: usize)
    ensures
        n == filtered(procs@, query@).len(),
{
    let mut n: usize = 0;
    let mut i: usize = 0;
    while i < procs.len()
        invariant
            i <= procs@.len(),
            n == filtered(procs@.subrange(0, i as int), query@).len(),
            n <= i,
        decreases procs.len() - i,
    {
        proof {
            let pre = procs@.subrange(0, i as int);
            assert(procs@.subrange(0, i + 1) =~= pre.push(procs@[i as int]));
            pre.lemma_filter_push(procs@[i as int], |p: ProcessEntry| matches_query(p, query@));
        }
        if process_matches(&procs[i], query) {
            n = n + 1;
        }
        i = i + 1;
    }
    assert(procs@.subrange(0, procs@.len() as int) =~= procs@);
    n
}

/// The `idx`-th row among those that match the search text, if any.
pub fn nth_matching<'a>(procs: &'a Vec<ProcessEntry>, query: &str, idx: usize) -> (r: Option<
    &'a ProcessEntry,
>)
    ensures
        r == (if idx < filtered(procs@, query@).len() {
            Some(&filtered(procs@, query@)[idx as int])
        } else {
            None::<&ProcessEntry>
        }),
{
    let mut n: usize = 0;
    let mut i: usize = 0;
    while i < procs.len()
        invariant
            i <= procs@.len(),
            n == filtered(procs@.subrange(0, i as int), query@).len(),
            n <= idx,
            n <= i,
        decreases procs.len() - i,
    {
        let ghost pre = procs@.subrange(0, i as int);
        proof {
            assert(procs@.subrange(0, i + 1) =~= pre.push(procs@[i as int]));
            pre.lemma_filter_push(procs@[i as int], |p: ProcessEntry| matches_query(p, query@));
            lemma_filtered_prefix(procs@, query@, i as int);
        }
        if process_matches(&procs[i], query) {
            if n == idx {
                proof {
                    assert(filtered(procs@.subrange(0, i + 1), query@)[idx as int] == procs@[i as int]);
                    lemma_filtered_prefix(procs@, query@, i + 1);
                }
                return Some(&procs[i]);
            }
            n = n + 1;
        }
        i = i + 1;
    }
    assert(procs@.subrange(0, procs@.len() as int) =~= procs@);
    None
}

/// The matches of a prefix are a prefix of the matches.
proof fn lemma_filtered_prefix(procs: Seq<ProcessEntry>, query: Seq<char>, i: int)
    requires
        0 <= i <= procs.len(),
    ensures
        filtered(procs.subrange(0, i), query).len() <= filtered(procs, query).len(),
        forall|k: int|
            0 <= k < filtered(procs.subrange(0, i), query).len() ==> #[trigger] filtered(
                procs.subrange(0, i),
                query,
            )[k] == filtered(procs, query)[k],
    decreases procs.len() - i,
{
    if i < procs.len() {
        let pre = procs.subrange(0, i);
        assert(procs.subrange(0, i + 1) =~= pre.push(procs[i]));
        pre.lemma_filter_push(procs[i], |p: ProcessEntry| matches_query(p, query));
        lemma_filtered_prefix(procs, query, i + 1);
        assert forall|k: int| 0 <= k < filtered(pre, query).len() implies #[trigger] filtered(pre, query)[k]
            == filtered(procs, query)[k] by {
            assert(filtered(pre, query)[k] == filtered(procs.subrange(0, i + 1), query)[k]);
        }
    } else {
        assert(procs.subrange(0, i) =~= procs);
    }
}

/// A copy of a row.
pub fn copy_entry(p: &ProcessEntry) -> (q: ProcessEntry)
    ensures
        q == *p,
{
    ProcessEntry {
        pid: p.pid,
        parent_pid: p.parent_pid,
        name: p.name.clone(),
        cpu_order: p.cpu_order,
        memory_bytes: p.memory_bytes,
        read_bytes: p.read_bytes,
        written_bytes: p.written_bytes,
        status: p.status.clone(),
        cmd: p.cmd.clone(),
    }
}

/// The rows that match the search text, copied, in table order.
pub fn matching_rows(procs: &Vec<ProcessEntry>, query: &str) -> (r: Vec<ProcessEntry>)
    ensures
        r@ == filtered(procs@, query@),
{
    let mut r: Vec<ProcessEntry> = Vec::new();
    let mut i: usize = 0;
    while i < procs.len()
        invariant
            i <= procs@.len(),
            r@ == filtered(procs@.subrange(0, i as int), query@),
        decreases procs.len() - i,
    {
        proof {
            let pre = procs@.subrange(0, i as int);
            assert(procs@.subrange(0, i + 1) =~= pre.push(procs@[i as int]));
            pre.lemma_filter_push(procs@[i as int], |p: ProcessEntry| matches_query(p, query@));
        }
        if process_matches(&procs[i], query) {
            r.push(copy_entry(&procs[i]));
        }
        i = i + 1;
    }
    assert(procs@.subrange(0, procs@.len() as int) =~= procs@);
    r
}

/// `q` hangs under `p` in the process tree: its parent PID is `p`'s PID. A
/// process named as its own parent hangs under nobody.
pub open spec fn child_of(q: ProcessEntry, p: ProcessEntry) -> bool {
    q.parent_pid == Some(p.pid) && q.parent_pid != Some(q.pid)
}

/// `q` starts a tree among `ps`: none of the rows is its parent.
pub open spec fn is_root(ps: Seq<ProcessEntry>, q: ProcessEntry) -> bool {
    forall|i: int| 0 <= i < ps.len() ==> !child_of(q, #[trigger] ps[i])
}

/// The rows of `rows` that start a tree among `all`.
pub open spec fn roots_among(rows: Seq<ProcessEntry>, all: Seq<ProcessEntry>) -> Seq<ProcessEntry> {
    rows.filter(|q: ProcessEntry| is_root(all, q))
}

/// The rows of `rows` that hang under `p`.
pub open spec fn children_among(rows: Seq<ProcessEntry>, p: ProcessEntry) -> Seq<ProcessEntry> {
    rows.filter(|q: ProcessEntry| child_of(q, p))
}

/// The tops of the trees, in the order of the sort column.
pub open spec fn tree_roots(ps: Seq<ProcessEntry>, by: ProcessSortBy) -> Seq<ProcessEntry> {
    sorted_rows(roots_among(ps, ps), by)
}

/// The children of `p`, in the order of the sort column.
pub open spec fn tree_children(ps: Seq<ProcessEntry>, by: ProcessSortBy, p: ProcessEntry) -> Seq<ProcessEntry> {
    sorted_rows(children_among(ps, p), by)
}

/// The glyph before a row: none at the top level, "└─ " for the last of
/// its siblings, "├─ " for the others.
pub open spec fn branch_glyph(top: bool, last: bool) -> Seq<char> {
    if top {
        Seq::empty()
    } else if last {
        "\u{2514}\u{2500} "@
    } else {
        "\u{251C}\u{2500} "@
    }
}

/// The indentation under a row: below the last sibling blank, below the
/// others a vertical line that leads to the next sibling.
pub open spec fn child_indent(indent: Seq<char>, top: bool, last: bool) -> Seq<char> {
    if top {
        indent
    } else if last {
        indent + "   "@
    } else {
        indent + "\u{2502}  "@
    }
}

/// The rows of the trees below `nodes`, depth first: each node with its
/// indentation and glyph, then its children, down to `depth` levels below.
pub open spec fn tree_rows(
    ps: Seq<ProcessEntry>,
    by: ProcessSortBy,
    nodes: Seq<ProcessEntry>,
    indent: Seq<char>,
    depth: nat,
    top: bool,
) -> Seq<(ProcessEntry, Seq<char>)>
    decreases depth, nodes.len(),
{
    if nodes.len() == 0 {
        Seq::empty()
    } else {
        let last = nodes.len() == 1;
        let own = seq![(nodes[0], indent + branch_glyph(top, last))];
        let below = if depth == 0 {
            Seq::empty()
        } else {
            tree_rows(
                ps,
                by,
                tree_children(ps, by, nodes[0]),
                child_indent(indent, top, last),
                (depth - 1) as nat,
                false,
            )
        };
        own + below + tree_rows(ps, by, nodes.drop_first(), indent, depth, top)
    }
}

/// The process tree of the rows `ps`: the trees in the order of the sort
/// column, each depth first with its children in that order too, every row
/// with the branch glyphs that lead to it. Trees are followed as deep as
/// there are rows.
pub open spec fn process_tree(ps: Seq<ProcessEntry>, by: ProcessSortBy) -> Seq<(ProcessEntry, Seq<char>)> {
    tree_rows(ps, by, tree_roots(ps, by), Seq::empty(), ps.len(), true)
}

/// A row of the process tree: the process and the branch glyphs drawn
/// before its name.
#[derive(Debug, Clone)]
pub struct ProcessTreeItem {
    pub process: ProcessEntry,
    pub prefix: String,
}

pub open spec fn tree_items(v: Seq<ProcessTreeItem>) -> Seq<(ProcessEntry, Seq<char>)> {
    v.map_values(|t: ProcessTreeItem| (t.process, t.prefix@))
}

fn hangs_under(q: &ProcessEntry, p: &ProcessEntry) -> (b: bool)
    ensures
        b == child_of(*q, *p),
{
    match q.parent_pid {
        Some(pp) => pp == p.pid && pp != q.pid,
        None => false,
    }
}

fn starts_tree(ps: &Vec<ProcessEntry>, q: &ProcessEntry) -> (b: bool)
    ensures
        b == is_root(ps@, *q),
{
    let mut i: usize = 0;
    while i < ps.len()
        invariant
            i <= ps@.len(),
            forall|k: int| 0 <= k < i ==> !child_of(*q, #[trigger] ps@[k]),
        decreases ps.len() - i,
    {
        if hangs_under(q, &ps[i]) {
            assert(child_of(*q, ps@[i as int]));
            return false;
        }
        i = i + 1;
    }
    true
}

fn root_rows(ps: &Vec<ProcessEntry>) -> (r: Vec<ProcessEntry>)
    ensures
        r@ == roots_among(ps@, ps@),
{
    let mut r: Vec<ProcessEntry> = Vec::new();
    let mut i: usize = 0;
    while i < ps.len()
        invariant
            i <= ps@.len(),
            r@ == roots_among(ps@.subrange(0, i as int), ps@),
        decreases ps.len() - i,
    {
        proof {
            let pre = ps@.subrange(0, i as int);
            assert(ps@.subrange(0, i + 1) =~= pre.push(ps@[i as int]));
            pre.lemma_filter_push(ps@[i as int], |q: ProcessEntry| is_root(ps@, q));
        }
        if starts_tree(ps, &ps[i]) {
            r.push(copy_entry(&ps[i]));
        }
        i = i + 1;
    }
    assert(ps@.subrange(0, ps@.len() as int) =~= ps@);
    r
}

fn child_rows(ps: &Vec<ProcessEntry>, p: &ProcessEntry) -> (r: Vec<ProcessEntry>)
    ensures
        r@ == children_among(ps@, *p),
{
    let mut r: Vec<ProcessEntry> = Vec::new();
    let mut i: usize = 0;
    while i < ps.len()
        invariant
            i <= ps@.len(),
            r@ == children_among(ps@.subrange(0, i as int), *p),
        decreases ps.len() - i,
    {
        proof {
            let pre = ps@.subrange(0, i as int);
            assert(ps@.subrange(0, i + 1) =~= pre.push(ps@[i as int]));
            pre.lemma_filter_push(ps@[i as int], |q: ProcessEntry| child_of(q, *p));
        }
        if hangs_under(&ps[i], p) {
            r.push(copy_entry(&ps[i]));
        }
        i = i + 1;
    }
    assert(ps@.subrange(0, ps@.len() as int) =~= ps@);
    r
}

fn push_tree_rows(
    ps: &Vec<ProcessEntry>,
    by: ProcessSortBy,
    nodes: Vec<ProcessEntry>,
    indent: &String,
    depth: usize,
    top: bool,
    out: &mut Vec<ProcessTreeItem>,
)
    ensures
        tree_items(final(out)@) == tree_items(old(out)@) + tree_rows(
            ps@,
            by,
            nodes@,
            indent@,
            depth as nat,
            top,
        ),
    decreases depth,
{
    let ghost start = tree_items(out@);
    let ghost goal = tree_rows(ps@, by, nodes@, indent@, depth as nat, top);
    let n = nodes.len();
    let mut i: usize = 0;
    assert(nodes@.skip(0) =~= nodes@);
    while i < n
        invariant
            i <= n,
            n == nodes@.len(),
            tree_items(out@) + tree_rows(ps@, by, nodes@.skip(i as int), indent@, depth as nat, top)
                == start + goal,
        decreases n - i,
    {
        let ghost s = nodes@.skip(i as int);
        let ghost before = tree_items(out@);
        let last = i + 1 == n;
        let mut prefix = indent.clone();
        if !top {
            if last {
                prefix.append("\u{2514}\u{2500} ");
            } else {
                prefix.append("\u{251C}\u{2500} ");
            }
        }
        let item = ProcessTreeItem { process: copy_entry(&nodes[i]), prefix };
        let ghost own = seq![(item.process, item.prefix@)];
        out.push(item);
        proof {
            assert(s[0] == nodes@[i as int]);
            assert(s.len() == 1 <==> last);
            assert(own == seq![(s[0], indent@ + branch_glyph(top, s.len() == 1))]);
            assert(tree_items(out@) =~= before + own);
        }
        let ghost mid = tree_items(out@);
        if depth > 0 {
            let kids = sort_processes(child_rows(ps, &nodes[i]), by);
            let mut inner = indent.clone();
            if !top {
                if last {
                    inner.append("   ");
                } else {
                    inner.append("\u{2502}  ");
                }
            }
            proof {
                assert(inner@ == child_indent(indent@, top, s.len() == 1));
            }
            push_tree_rows(ps, by, kids, &inner, depth - 1, false, out);
        }
        proof {
            assert(s.drop_first() =~= nodes@.skip(i + 1));
            let below = if depth == 0 {
                Seq::<(ProcessEntry, Seq<char>)>::empty()
            } else {
                tree_rows(
                    ps@,
                    by,
                    tree_children(ps@, by, s[0]),
                    child_indent(indent@, top, s.len() == 1),
                    (depth - 1) as nat,
                    false,
                )
            };
            assert(tree_items(out@) == mid + below);
            assert(tree_rows(ps@, by, s, indent@, depth as nat, top) == own + below + tree_rows(
                ps@,
                by,
                nodes@.skip(i + 1),
                indent@,
                depth as nat,
                top,
            ));
            assert(tree_items(out@) + tree_rows(ps@, by, nodes@.skip(i + 1), indent@, depth as nat, top)
                =~= before + tree_rows(ps@, by, s, indent@, depth as nat, top));
        }
        i = i + 1;
    }
    assert(nodes@.skip(n as int) =~= Seq::<ProcessEntry>::empty());
    assert(tree_items(out@) =~= start + goal);
}

/// The process tree of the rows: each tree in the order of `by`, depth
/// first, each row with the branch glyphs that lead to it.
pub fn build_process_tree(ps: &Vec<ProcessEntry>, by: ProcessSortBy) -> (r: Vec<ProcessTreeItem>)
    ensures
        tree_items(r@) == process_tree(ps@, by),
{
    let roots = sort_processes(root_rows(ps), by);
    let mut r: Vec<ProcessTreeItem> = Vec::new();
    let indent = String::new();
    assert(tree_items(r@) =~= Seq::<(ProcessEntry, Seq<char>)>::empty());
    push_tree_rows(ps, by, roots, &indent, ps.len(), true, &mut r);
    assert(tree_items(r@) =~= process_tree(ps@, by));
    r
}

proof fn lemma_filter_within(s: Seq<ProcessEntry>, pred: spec_fn(ProcessEntry) -> bool)
    ensures
        forall|i: int| 0 <= i < s.filter(pred).len() ==> s.contains(#[trigger] s.filter(pred)[i]),
    decreases s.len(),
{
    reveal(Seq::filter);
    if s.len() > 0 {
        let t = s.drop_last();
        lemma_filter_within(t, pred);
        assert forall|i: int| 0 <= i < s.filter(pred).len() implies s.contains(#[trigger] s.filter(pred)[i]) by {
            if i < t.filter(pred).len() {
                let x = t.filter(pred)[i];
                assert(t.contains(x));
                let j = choose|j: int| 0 <= j < t.len() && t[j] == x;
                assert(s[j] == x);
            } else {
                assert(s.filter(pred)[i] == s.last());
                assert(s[s.len() - 1] == s.last());
            }
        }
    }
}

proof fn lemma_sorted_within(input: Seq<ProcessEntry>, by: ProcessSortBy)
    ensures
        forall|i: int| 0 <= i < sorted_rows(input, by).len() ==> input.contains(#[trigger] sorted_rows(input, by)[i]),
{
    lemma_stable_sort_exists(input, by);
    let r = sorted_rows(input, by);
    let perm = choose|perm: Seq<int>| stable_sorted_by(input, r, by, perm);
    assert forall|i: int| 0 <= i < r.len() implies input.contains(#[trigger] r[i]) by {
        assert(r[i] == input[perm[i]]);
    }
}

proof fn lemma_tree_rows_within(
    ps: Seq<ProcessEntry>,
    by: ProcessSortBy,
    nodes: Seq<ProcessEntry>,
    indent: Seq<char>,
    depth: nat,
    top: bool,
)
    requires
        forall|k: int| 0 <= k < nodes.len() ==> ps.contains(#[trigger] nodes[k]),
    ensures
        forall|k: int|
            0 <= k < tree_rows(ps, by, nodes, indent, depth, top).len() ==> ps.contains(
                (#[trigger] tree_rows(ps, by, nodes, indent, depth, top)[k]).0,
            ),
    decreases depth, nodes.len(),
{
    if nodes.len() > 0 {
        let last = nodes.len() == 1;
        let own = seq![(nodes[0], indent + branch_glyph(top, last))];
        let below = if depth == 0 {
            Seq::empty()
        } else {
            tree_rows(
                ps,
                by,
                tree_children(ps, by, nodes[0]),
                child_indent(indent, top, last),
                (depth - 1) as nat,
                false,
            )
        };
        let rest = tree_rows(ps, by, nodes.drop_first(), indent, depth, top);
        assert(ps.contains(nodes[0]));
        if depth > 0 {
            let kids = tree_children(ps, by, nodes[0]);
            lemma_sorted_within(children_among(ps, nodes[0]), by);
            lemma_filter_within(ps, |q: ProcessEntry| child_of(q, nodes[0]));
            assert forall|k: int| 0 <= k < kids.len() implies ps.contains(#[trigger] kids[k]) by {
                let c = children_among(ps, nodes[0]);
                assert(c.contains(kids[k]));
                let j = choose|j: int| 0 <= j < c.len() && c[j] == kids[k];
                assert(ps.contains(c[j]));
            }
            lemma_tree_rows_within(
                ps,
                by,
                kids,
                child_indent(indent, top, last),
                (depth - 1) as nat,
                false,
            );
        }
        assert forall|k: int| 0 <= k < nodes.drop_first().len() implies ps.contains(
            #[trigger] nodes.drop_first()[k],
        ) by {
            assert(nodes.drop_first()[k] == nodes[k + 1]);
        }
        lemma_tree_rows_within(ps, by, nodes.drop_first(), indent, depth, top);
        let all = tree_rows(ps, by, nodes, indent, depth, top);
        assert(all == own + below + rest);
        assert forall|k: int| 0 <= k < all.len() implies ps.contains((#[trigger] all[k]).0) by {
            if k == 0 {
            } else if k < 1 + below.len() {
                assert(all[k] == below[k - 1]);
            } else {
                assert(all[k] == rest[k - 1 - below.len()]);
            }
        }
    }
}

/// Every row of the process tree is a row of the table it was built from.
pub proof fn lemma_tree_rows_are_table_rows(ps: Seq<ProcessEntry>, by: ProcessSortBy)
    ensures
        forall|k: int|
            0 <= k < process_tree(ps, by).len() ==> ps.contains((#[trigger] process_tree(ps, by)[k]).0),
{
    let roots = tree_roots(ps, by);
    lemma_sorted_within(roots_among(ps, ps), by);
    lemma_filter_within(ps, |q: ProcessEntry| is_root(ps, q));
    assert forall|k: int| 0 <= k < roots.len() implies ps.contains(#[trigger] roots[k]) by {
        let c = roots_among(ps, ps);
        assert(c.contains(roots[k]));
        let j = choose|j: int| 0 <= j < c.len() && c[j] == roots[k];
        assert(ps.contains(c[j]));
    }
    lemma_tree_rows_within(ps, by, roots, Seq::empty(), ps.len(), true);
}

/// Number of times `x` occurs in `s`.
pub open spec fn occurrences(s: Seq<ProcessEntry>, x: ProcessEntry) -> nat
    decreases s.len(),
{
    if s.len() == 0 {
        0
    } else {
        occurrences(s.drop_last(), x) + if s.last() == x {
            1nat
        } else {
            0nat
        }
    }
}

/// The processes of the tree rows below `nodes`, without their glyphs.
pub open spec fn tree_procs(ps: Seq<ProcessEntry>, by: ProcessSortBy, nodes: Seq<ProcessEntry>, depth: nat) -> Seq<
    ProcessEntry,
>
    decreases depth, nodes.len(),
{
    if nodes.len() == 0 {
        Seq::empty()
    } else {
        let below = if depth == 0 {
            Seq::empty()
        } else {
            tree_procs(ps, by, tree_children(ps, by, nodes[0]), (depth - 1) as nat)
        };
        seq![nodes[0]] + below + tree_procs(ps, by, nodes.drop_first(), depth)
    }
}

/// The processes of tree rows, in order.
pub open spec fn row_procs(rows: Seq<(ProcessEntry, Seq<char>)>) -> Seq<ProcessEntry> {
    rows.map_values(|r: (ProcessEntry, Seq<char>)| r.0)
}

/// No two rows have the same PID.
pub open spec fn unique_pids(ps: Seq<ProcessEntry>) -> bool {
    forall|i: int, j: int|
        0 <= i < ps.len() && 0 <= j < ps.len() && i != j ==> #[trigger] ps[i].pid != #[trigger] ps[j].pid
}

/// `lv` layers the rows below the number of rows: tops at level 0, each
/// child one level below its parent. Such a layering exists exactly when
/// the parent links among the rows form no cycle.
pub open spec fn levels_fit(ps: Seq<ProcessEntry>, lv: spec_fn(ProcessEntry) -> nat) -> bool {
    &&& forall|q: ProcessEntry| ps.contains(q) ==> #[trigger] lv(q) < ps.len()
    &&& forall|q: ProcessEntry| ps.contains(q) && is_root(ps, q) ==> #[trigger] lv(q) == 0
    &&& forall|q: ProcessEntry, p: ProcessEntry|
        ps.contains(q) && ps.contains(p) && #[trigger] child_of(q, p) ==> lv(q) == lv(p) + 1
}

/// The row that `q` hangs under.
pub open spec fn parent_row(ps: Seq<ProcessEntry>, q: ProcessEntry) -> ProcessEntry {
    choose|p: ProcessEntry| ps.contains(p) && child_of(q, p)
}

/// The row `k` levels above `q`.
pub open spec fn ancestor(ps: Seq<ProcessEntry>, q: ProcessEntry, k: nat) -> ProcessEntry
    decreases k,
{
    if k == 0 {
        q
    } else {
        ancestor(ps, parent_row(ps, q), (k - 1) as nat)
    }
}

proof fn lemma_occurrences_concat(a: Seq<ProcessEntry>, b: Seq<ProcessEntry>, x: ProcessEntry)
    ensures
        occurrences(a + b, x) == occurrences(a, x) + occurrences(b, x),
    decreases b.len(),
{
    if b.len() == 0 {
        assert(a + b =~= a);
    } else {
        lemma_occurrences_concat(a, b.drop_last(), x);
        assert((a + b).drop_last() =~= a + b.drop_last());
        assert((a + b).last() == b.last());
    }
}

proof fn lemma_occurrences_single(c: ProcessEntry, x: ProcessEntry)
    ensures
        occurrences(seq![c], x) == (if c == x { 1nat } else { 0nat }),
{
    let s = seq![c];
    assert(s.drop_last() =~= Seq::<ProcessEntry>::empty());
    assert(s.last() == c);
    assert(occurrences(s.drop_last(), x) == 0);
}

proof fn lemma_occurrences_absent(s: Seq<ProcessEntry>, x: ProcessEntry)
    requires
        !s.contains(x),
    ensures
        occurrences(s, x) == 0,
    decreases s.len(),
{
    if s.len() > 0 {
        assert(s.last() == s[s.len() - 1]);
        assert forall|i: int| 0 <= i < s.drop_last().len() implies s.drop_last()[i] != x by {
            assert(s.drop_last()[i] == s[i]);
        }
        lemma_occurrences_absent(s.drop_last(), x);
    }
}

proof fn lemma_occurrences_once(s: Seq<ProcessEntry>, x: ProcessEntry)
    requires
        s.no_duplicates(),
        s.contains(x),
    ensures
        occurrences(s, x) == 1,
    decreases s.len(),
{
    let t = s.drop_last();
    if s.last() == x {
        assert forall|i: int| 0 <= i < t.len() implies t[i] != x by {
            assert(t[i] == s[i]);
            assert(s[s.len() - 1] == x);
        }
        lemma_occurrences_absent(t, x);
    } else {
        let k = choose|k: int| 0 <= k < s.len() && s[k] == x;
        assert(k != s.len() - 1);
        assert(t[k] == x);
        assert forall|i: int, j: int| 0 <= i < j < t.len() implies t[i] != t[j] by {
            assert(t[i] == s[i] && t[j] == s[j]);
        }
        lemma_occurrences_once(t, x);
    }
}

proof fn lemma_unique_rows(ps: Seq<ProcessEntry>)
    requires
        unique_pids(ps),
    ensures
        ps.no_duplicates(),
        forall|p: ProcessEntry, q: ProcessEntry|
            ps.contains(p) && ps.contains(q) && p.pid == q.pid ==> p == q,
{
    assert forall|i: int, j: int| 0 <= i < j < ps.len() implies ps[i] != ps[j] by {
        assert(ps[i].pid != ps[j].pid);
    }
    assert forall|p: ProcessEntry, q: ProcessEntry|
        ps.contains(p) && ps.contains(q) && p.pid == q.pid implies p == q by {
        let i = choose|i: int| 0 <= i < ps.len() && ps[i] == p;
        let j = choose|j: int| 0 <= j < ps.len() && ps[j] == q;
        if i != j {
            assert(ps[i].pid != ps[j].pid);
        }
    }
}

proof fn lemma_filter_no_duplicates(s: Seq<ProcessEntry>, pred: spec_fn(ProcessEntry) -> bool)
    requires
        s.no_duplicates(),
    ensures
        s.filter(pred).no_duplicates(),
    decreases s.len(),
{
    reveal(Seq::filter);
    if s.len() > 0 {
        let t = s.drop_last();
        assert forall|i: int, j: int| 0 <= i < j < t.len() implies t[i] != t[j] by {
            assert(t[i] == s[i] && t[j] == s[j]);
        }
        lemma_filter_no_duplicates(t, pred);
        lemma_filter_within(t, pred);
        if pred(s.last()) {
            let f = t.filter(pred);
            assert forall|i: int| 0 <= i < f.len() implies f[i] != s.last() by {
                assert(t.contains(f[i]));
                let k = choose|k: int| 0 <= k < t.len() && t[k] == f[i];
                assert(s[k] == t[k]);
                assert(s[s.len() - 1] == s.last());
            }
            let g = f.push(s.last());
            assert forall|i: int, j: int| 0 <= i < j < g.len() implies g[i] != g[j] by {
                if j == g.len() - 1 {
                    assert(g[i] == f[i]);
                } else {
                    assert(g[i] == f[i] && g[j] == f[j]);
                }
            }
        }
    }
}

/// A row is among the filtered rows exactly when it is a row that passes.
proof fn lemma_filter_membership(s: Seq<ProcessEntry>, pred: spec_fn(ProcessEntry) -> bool, y: ProcessEntry)
    ensures
        s.filter(pred).contains(y) <==> s.contains(y) && pred(y),
{
    lemma_filter_within(s, pred);
    if s.filter(pred).contains(y) {
        let i = choose|i: int| 0 <= i < s.filter(pred).len() && s.filter(pred)[i] == y;
        s.lemma_filter_pred(pred, i);
        assert(s.contains(s.filter(pred)[i]));
    }
    if s.contains(y) && pred(y) {
        let i = choose|i: int| 0 <= i < s.len() && s[i] == y;
        s.lemma_filter_contains(pred, i);
    }
}

/// Sorting keeps the rows: the same rows, each as often, and no new ones.
proof fn lemma_sorted_membership(input: Seq<ProcessEntry>, by: ProcessSortBy)
    ensures
        forall|y: ProcessEntry| #[trigger] sorted_rows(input, by).contains(y) <==> input.contains(y),
        input.no_duplicates() ==> sorted_rows(input, by).no_duplicates(),
{
    lemma_stable_sort_exists(input, by);
    let r = sorted_rows(input, by);
    let perm = choose|perm: Seq<int>| stable_sorted_by(input, r, by, perm);
    let n = input.len();
    lemma_permutation_set(perm, n);
    assert forall|y: ProcessEntry| #[trigger] r.contains(y) <==> input.contains(y) by {
        if r.contains(y) {
            let i = choose|i: int| 0 <= i < r.len() && r[i] == y;
            assert(r[i] == input[perm[i]]);
        }
        if input.contains(y) {
            let j = choose|j: int| 0 <= j < n && input[j] == y;
            assert(Set::new(|x: int| 0 <= x < n).contains(j));
            assert(perm.to_set().contains(j));
            let i = choose|i: int| 0 <= i < perm.len() && perm[i] == j;
            assert(r[i] == input[perm[i]]);
        }
    }
    if input.no_duplicates() {
        assert forall|i: int, j: int| 0 <= i < j < r.len() implies r[i] != r[j] by {
            assert(r[i] == input[perm[i]] && r[j] == input[perm[j]]);
            assert(perm[i] != perm[j]);
        }
    }
}

proof fn lemma_parent_row(ps: Seq<ProcessEntry>, q: ProcessEntry)
    requires
        !is_root(ps, q),
    ensures
        ps.contains(parent_row(ps, q)),
        child_of(q, parent_row(ps, q)),
{
    let i = choose|i: int| 0 <= i < ps.len() && child_of(q, ps[i]);
    assert(ps.contains(ps[i]) && child_of(q, ps[i]));
}

proof fn lemma_parent_unique(ps: Seq<ProcessEntry>, q: ProcessEntry, p: ProcessEntry)
    requires
        unique_pids(ps),
        ps.contains(p),
        child_of(q, p),
    ensures
        parent_row(ps, q) == p,
{
    let i = choose|i: int| 0 <= i < ps.len() && ps[i] == p;
    assert(!is_root(ps, q)) by {
        assert(child_of(q, ps[i]));
    }
    lemma_parent_row(ps, q);
    lemma_unique_rows(ps);
}

proof fn lemma_level_root(ps: Seq<ProcessEntry>, lv: spec_fn(ProcessEntry) -> nat, q: ProcessEntry)
    requires
        levels_fit(ps, lv),
        ps.contains(q),
    ensures
        is_root(ps, q) <==> lv(q) == 0,
{
    if !is_root(ps, q) {
        lemma_parent_row(ps, q);
        let p = parent_row(ps, q);
        assert(lv(q) == lv(p) + 1);
    }
}

proof fn lemma_ancestor_level(ps: Seq<ProcessEntry>, lv: spec_fn(ProcessEntry) -> nat, q: ProcessEntry, j: nat)
    requires
        levels_fit(ps, lv),
        ps.contains(q),
        j <= lv(q),
    ensures
        ps.contains(ancestor(ps, q, j)),
        lv(ancestor(ps, q, j)) == lv(q) - j,
    decreases j,
{
    if j > 0 {
        lemma_level_root(ps, lv, q);
        lemma_parent_row(ps, q);
        let p = parent_row(ps, q);
        assert(lv(q) == lv(p) + 1);
        lemma_ancestor_level(ps, lv, p, (j - 1) as nat);
    }
}

proof fn lemma_ancestor_step(ps: Seq<ProcessEntry>, lv: spec_fn(ProcessEntry) -> nat, q: ProcessEntry, j: nat)
    requires
        levels_fit(ps, lv),
        ps.contains(q),
        j < lv(q),
    ensures
        ancestor(ps, q, j + 1) == parent_row(ps, ancestor(ps, q, j)),
    decreases j,
{
    if j > 0 {
        lemma_level_root(ps, lv, q);
        lemma_parent_row(ps, q);
        let p = parent_row(ps, q);
        assert(lv(q) == lv(p) + 1);
        lemma_ancestor_step(ps, lv, p, (j - 1) as nat);
        assert(ancestor(ps, q, j + 1) == ancestor(ps, p, j));
        assert(ancestor(ps, q, j) == ancestor(ps, p, (j - 1) as nat));
    } else {
        let p = parent_row(ps, q);
        assert(ancestor(ps, p, 0) == p);
        assert(ancestor(ps, q, 1) == ancestor(ps, p, 0));
        assert(ancestor(ps, q, 0) == q);
    }
}

proof fn lemma_children_facts(ps: Seq<ProcessEntry>, by: ProcessSortBy, lv: spec_fn(ProcessEntry) -> nat, c: ProcessEntry)
    requires
        unique_pids(ps),
        levels_fit(ps, lv),
        ps.contains(c),
    ensures
        tree_children(ps, by, c).no_duplicates(),
        forall|y: ProcessEntry|
            #[trigger] tree_children(ps, by, c).contains(y) <==> ps.contains(y) && child_of(y, c),
        forall|k: int|
            0 <= k < tree_children(ps, by, c).len() ==> ps.contains(#[trigger] tree_children(ps, by, c)[k])
                && lv(tree_children(ps, by, c)[k]) == lv(c) + 1,
{
    let pred = |q: ProcessEntry| child_of(q, c);
    let f = children_among(ps, c);
    let kids = tree_children(ps, by, c);
    lemma_unique_rows(ps);
    lemma_filter_no_duplicates(ps, pred);
    lemma_sorted_membership(f, by);
    assert forall|y: ProcessEntry| #[trigger] kids.contains(y) <==> ps.contains(y) && child_of(y, c) by {
        lemma_filter_membership(ps, pred, y);
    }
    assert forall|k: int| 0 <= k < kids.len() implies ps.contains(#[trigger] kids[k]) && lv(kids[k]) == lv(c) + 1 by {
        assert(kids.contains(kids[k]));
        assert(child_of(kids[k], c));
    }
}

proof fn lemma_tree_procs_rows(
    ps: Seq<ProcessEntry>,
    by: ProcessSortBy,
    nodes: Seq<ProcessEntry>,
    indent: Seq<char>,
    depth: nat,
    top: bool,
)
    ensures
        row_procs(tree_rows(ps, by, nodes, indent, depth, top)) == tree_procs(ps, by, nodes, depth),
    decreases depth, nodes.len(),
{
    if nodes.len() > 0 {
        let last = nodes.len() == 1;
        let own = seq![(nodes[0], indent + branch_glyph(top, last))];
        let below = if depth == 0 {
            Seq::empty()
        } else {
            tree_rows(
                ps,
                by,
                tree_children(ps, by, nodes[0]),
                child_indent(indent, top, last),
                (depth - 1) as nat,
                false,
            )
        };
        let rest = tree_rows(ps, by, nodes.drop_first(), indent, depth, top);
        if depth > 0 {
            lemma_tree_procs_rows(
                ps,
                by,
                tree_children(ps, by, nodes[0]),
                child_indent(indent, top, last),
                (depth - 1) as nat,
                false,
            );
        }
        lemma_tree_procs_rows(ps, by, nodes.drop_first(), indent, depth, top);
        assert(tree_rows(ps, by, nodes, indent, depth, top) == own + below + rest);
        assert(row_procs(own + below + rest) =~= row_procs(own) + row_procs(below) + row_procs(rest));
        assert(row_procs(own) =~= seq![nodes[0]]);
        if depth == 0 {
            assert(row_procs(below) =~= Seq::<ProcessEntry>::empty());
        }
    }
}

/// A sibling list is its first node followed by the others, which do not
/// repeat it.
proof fn lemma_nodes_split(nodes: Seq<ProcessEntry>)
    requires
        nodes.len() > 0,
        nodes.no_duplicates(),
    ensures
        nodes.drop_first().no_duplicates(),
        !nodes.drop_first().contains(nodes[0]),
        forall|y: ProcessEntry| #[trigger] nodes.contains(y) <==> (y == nodes[0] || nodes.drop_first().contains(y)),
{
    let c = nodes[0];
    let rest = nodes.drop_first();
    assert forall|i: int, j: int| 0 <= i < j < rest.len() implies rest[i] != rest[j] by {
        assert(rest[i] == nodes[i + 1] && rest[j] == nodes[j + 1]);
    }
    if rest.contains(c) {
        let k = choose|k: int| 0 <= k < rest.len() && rest[k] == c;
        assert(nodes[k + 1] == nodes[0]);
    }
    assert forall|y: ProcessEntry| #[trigger] nodes.contains(y) <==> (y == c || rest.contains(y)) by {
        if nodes.contains(y) {
            let k = choose|k: int| 0 <= k < nodes.len() && nodes[k] == y;
            if k > 0 {
                assert(rest[k - 1] == y);
            }
        }
        if rest.contains(y) {
            let k = choose|k: int| 0 <= k < rest.len() && rest[k] == y;
            assert(nodes[k + 1] == y);
        }
        if y == c {
            assert(nodes[0] == y);
        }
    }
}

/// Below level `level`, `x` lies under the child of `c` on its chain of
/// parents exactly when its ancestor at `c`'s level is `c`.
proof fn lemma_child_on_chain(
    ps: Seq<ProcessEntry>,
    by: ProcessSortBy,
    lv: spec_fn(ProcessEntry) -> nat,
    c: ProcessEntry,
    level: nat,
    x: ProcessEntry,
)
    requires
        unique_pids(ps),
        levels_fit(ps, lv),
        ps.contains(c),
        lv(c) == level,
        ps.contains(x),
        lv(x) > level,
    ensures
        tree_children(ps, by, c).contains(ancestor(ps, x, (lv(x) - level - 1) as nat)) <==> ancestor(
            ps,
            x,
            (lv(x) - level) as nat,
        ) == c,
{
    let j = (lv(x) - level - 1) as nat;
    lemma_children_facts(ps, by, lv, c);
    lemma_ancestor_level(ps, lv, x, j);
    let y = ancestor(ps, x, j);
    lemma_ancestor_step(ps, lv, x, j);
    assert((lv(x) - level) as nat == j + 1);
    assert(lv(y) == level + 1);
    lemma_level_root(ps, lv, y);
    lemma_parent_row(ps, y);
    if child_of(y, c) {
        lemma_parent_unique(ps, y, c);
    }
}

#[verifier::spinoff_prover]
proof fn lemma_tree_counts(
    ps: Seq<ProcessEntry>,
    by: ProcessSortBy,
    lv: spec_fn(ProcessEntry) -> nat,
    nodes: Seq<ProcessEntry>,
    depth: nat,
    level: nat,
    x: ProcessEntry,
)
    requires
        unique_pids(ps),
        levels_fit(ps, lv),
        nodes.no_duplicates(),
        forall|k: int| 0 <= k < nodes.len() ==> ps.contains(#[trigger] nodes[k]) && lv(nodes[k]) == level,
        level + depth == ps.len(),
        ps.contains(x),
    ensures
        occurrences(tree_procs(ps, by, nodes, depth), x) == (if lv(x) >= level && nodes.contains(
            ancestor(ps, x, (lv(x) - level) as nat),
        ) {
            1nat
        } else {
            0nat
        }),
    decreases depth, nodes.len(),
{
    if nodes.len() == 0 {
        return;
    }
    let c = nodes[0];
    let rest = nodes.drop_first();
    assert(ps.contains(c) && lv(c) == level);
    assert(lv(c) < ps.len());
    let kids = tree_children(ps, by, c);
    lemma_children_facts(ps, by, lv, c);
    lemma_nodes_split(nodes);
    assert forall|k: int| 0 <= k < rest.len() implies ps.contains(#[trigger] rest[k]) && lv(rest[k]) == level by {
        assert(rest[k] == nodes[k + 1]);
    }
    lemma_tree_counts(ps, by, lv, kids, (depth - 1) as nat, level + 1, x);
    lemma_tree_counts(ps, by, lv, rest, depth, level, x);
    let below = tree_procs(ps, by, kids, (depth - 1) as nat);
    let after = tree_procs(ps, by, rest, depth);
    assert(tree_procs(ps, by, nodes, depth) == seq![c] + below + after);
    lemma_occurrences_concat(seq![c] + below, after, x);
    lemma_occurrences_concat(seq![c], below, x);
    lemma_occurrences_single(c, x);
    if lv(x) > level {
        lemma_child_on_chain(ps, by, lv, c, level, x);
        assert(c != x);
    }
}

/// When no two rows share a PID and the parent links form no cycle (the
/// rows can be layered, tops first), the process tree lists every row
/// exactly once and nothing else: it is a reordering of the rows.
pub proof fn lemma_tree_lists_each_row_once(ps: Seq<ProcessEntry>, by: ProcessSortBy)
    requires
        unique_pids(ps),
        exists|lv: spec_fn(ProcessEntry) -> nat| levels_fit(ps, lv),
    ensures
        forall|x: ProcessEntry|
            occurrences(row_procs(process_tree(ps, by)), x) == #[trigger] occurrences(ps, x),
{
    let lv = choose|lv: spec_fn(ProcessEntry) -> nat| levels_fit(ps, lv);
    let roots = tree_roots(ps, by);
    let pred = |q: ProcessEntry| is_root(ps, q);
    lemma_unique_rows(ps);
    lemma_filter_no_duplicates(ps, pred);
    lemma_sorted_membership(roots_among(ps, ps), by);
    assert forall|y: ProcessEntry| #[trigger] roots.contains(y) <==> ps.contains(y) && is_root(ps, y) by {
        lemma_filter_membership(ps, pred, y);
    }
    assert forall|k: int| 0 <= k < roots.len() implies ps.contains(#[trigger] roots[k]) && lv(roots[k]) == 0 by {
        assert(roots.contains(roots[k]));
        lemma_level_root(ps, lv, roots[k]);
    }
    lemma_tree_procs_rows(ps, by, roots, Seq::empty(), ps.len(), true);
    lemma_tree_rows_are_table_rows(ps, by);
    assert forall|x: ProcessEntry| occurrences(row_procs(process_tree(ps, by)), x) == #[trigger] occurrences(ps, x) by {
        let t = row_procs(process_tree(ps, by));
        if ps.contains(x) {
            lemma_tree_counts(ps, by, lv, roots, ps.len(), 0, x);
            lemma_ancestor_level(ps, lv, x, lv(x));
            let a = ancestor(ps, x, lv(x));
            lemma_level_root(ps, lv, a);
            assert(roots.contains(a));
            lemma_occurrences_once(ps, x);
        } else {
            assert forall|k: int| 0 <= k < t.len() implies t[k] != x by {
                assert(t[k] == process_tree(ps, by)[k].0);
            }
            lemma_occurrences_absent(t, x);
            lemma_occurrences_absent(ps, x);
        }
    }
}

proof fn lemma_filter_none(s: Seq<ProcessEntry>, pred: spec_fn(ProcessEntry) -> bool)
    requires
        forall|k: int| 0 <= k < s.len() ==> !pred(#[trigger] s[k]),
    ensures
        s.filter(pred) == Seq::<ProcessEntry>::empty(),
    decreases s.len(),
{
    reveal(Seq::filter);
    if s.len() > 0 {
        assert forall|k: int| 0 <= k < s.drop_last().len() implies !pred(#[trigger] s.drop_last()[k]) by {
            assert(s.drop_last()[k] == s[k]);
        }
        lemma_filter_none(s.drop_last(), pred);
        assert(!pred(s[s.len() - 1]));
    }
}

proof fn lemma_filter_single(x: ProcessEntry, pred: spec_fn(ProcessEntry) -> bool)
    ensures
        seq![x].filter(pred) == (if pred(x) { seq![x] } else { Seq::<ProcessEntry>::empty() }),
{
    reveal(Seq::filter);
    assert(seq![x].drop_last() =~= Seq::<ProcessEntry>::empty());
    assert(Seq::<ProcessEntry>::empty().filter(pred) == Seq::<ProcessEntry>::empty());
    assert(seq![x].last() == x);
    if pred(x) {
        assert(Seq::<ProcessEntry>::empty().push(x) =~= seq![x]);
    }
}

/// Rows below rows that hang under a row are rows that hang under a row:
/// no tree top appears below another row.
proof fn lemma_below_not_tops(ps: Seq<ProcessEntry>, by: ProcessSortBy, nodes: Seq<ProcessEntry>, depth: nat)
    requires
        forall|k: int| 0 <= k < nodes.len() ==> ps.contains(#[trigger] nodes[k]) && !is_root(ps, nodes[k]),
    ensures
        forall|k: int|
            0 <= k < tree_procs(ps, by, nodes, depth).len() ==> ps.contains(
                #[trigger] tree_procs(ps, by, nodes, depth)[k],
            ) && !is_root(ps, tree_procs(ps, by, nodes, depth)[k]),
    decreases depth, nodes.len(),
{
    if nodes.len() > 0 {
        let c = nodes[0];
        let rest = nodes.drop_first();
        assert forall|k: int| 0 <= k < rest.len() implies ps.contains(#[trigger] rest[k]) && !is_root(ps, rest[k]) by {
            assert(rest[k] == nodes[k + 1]);
        }
        lemma_below_not_tops(ps, by, rest, depth);
        let after = tree_procs(ps, by, rest, depth);
        let below = if depth == 0 {
            Seq::<ProcessEntry>::empty()
        } else {
            tree_procs(ps, by, tree_children(ps, by, c), (depth - 1) as nat)
        };
        if depth > 0 {
            lemma_kids_not_tops(ps, by, c);
            lemma_below_not_tops(ps, by, tree_children(ps, by, c), (depth - 1) as nat);
        }
        let all = tree_procs(ps, by, nodes, depth);
        assert(all == seq![c] + below + after);
        assert forall|k: int| 0 <= k < all.len() implies ps.contains(#[trigger] all[k]) && !is_root(ps, all[k]) by {
            if k == 0 {
                assert(all[0] == nodes[0]);
            } else if k < 1 + below.len() {
                assert(all[k] == below[k - 1]);
            } else {
                assert(all[k] == after[k - 1 - below.len()]);
            }
        }
    }
}

/// The children of a row are rows and not tree tops.
proof fn lemma_kids_not_tops(ps: Seq<ProcessEntry>, by: ProcessSortBy, c: ProcessEntry)
    requires
        ps.contains(c),
    ensures
        forall|k: int|
            0 <= k < tree_children(ps, by, c).len() ==> ps.contains(#[trigger] tree_children(ps, by, c)[k])
                && !is_root(ps, tree_children(ps, by, c)[k]),
{
    let pred = |q: ProcessEntry| child_of(q, c);
    let kids = tree_children(ps, by, c);
    lemma_sorted_membership(children_among(ps, c), by);
    let i = choose|i: int| 0 <= i < ps.len() && ps[i] == c;
    assert forall|k: int| 0 <= k < kids.len() implies ps.contains(#[trigger] kids[k]) && !is_root(ps, kids[k]) by {
        assert(kids.contains(kids[k]));
        lemma_filter_membership(ps, pred, kids[k]);
        assert(child_of(kids[k], ps[i]));
    }
}

/// Among tree tops, keeping only the tops of the tree rows below them gives
/// back the tops themselves.
proof fn lemma_tops_of_rows(ps: Seq<ProcessEntry>, by: ProcessSortBy, nodes: Seq<ProcessEntry>, depth: nat)
    requires
        forall|k: int| 0 <= k < nodes.len() ==> ps.contains(#[trigger] nodes[k]) && is_root(ps, nodes[k]),
    ensures
        tree_procs(ps, by, nodes, depth).filter(|q: ProcessEntry| is_root(ps, q)) == nodes,
    decreases nodes.len(),
{
    let pred = |q: ProcessEntry| is_root(ps, q);
    if nodes.len() == 0 {
        reveal(Seq::filter);
    } else {
        let c = nodes[0];
        let rest = nodes.drop_first();
        assert forall|k: int| 0 <= k < rest.len() implies ps.contains(#[trigger] rest[k]) && is_root(ps, rest[k]) by {
            assert(rest[k] == nodes[k + 1]);
        }
        lemma_tops_of_rows(ps, by, rest, depth);
        let after = tree_procs(ps, by, rest, depth);
        let below = if depth == 0 {
            Seq::<ProcessEntry>::empty()
        } else {
            tree_procs(ps, by, tree_children(ps, by, c), (depth - 1) as nat)
        };
        assert(ps.contains(c));
        if depth > 0 {
            lemma_kids_not_tops(ps, by, c);
            lemma_below_not_tops(ps, by, tree_children(ps, by, c), (depth - 1) as nat);
        }
        lemma_filter_none(below, pred);
        lemma_filter_single(c, pred);
        assert(tree_procs(ps, by, nodes, depth) == seq![c] + below + after);
        Seq::filter_distributes_over_add(seq![c] + below, after, pred);
        Seq::filter_distributes_over_add(seq![c], below, pred);
        assert(nodes =~= seq![c] + rest);
        assert(seq![c] + Seq::<ProcessEntry>::empty() =~= seq![c]);
    }
}

/// The tops of the process tree come in the order of the sort column (of
/// two tops, the later never precedes the earlier; tops of equal rank keep
/// the order of the table, so the tops are a stable sort of the table's tree
/// tops), and every tree top of the rows is among them and nothing else.
pub proof fn lemma_tree_tops_sorted(ps: Seq<ProcessEntry>, by: ProcessSortBy)
    ensures
        ({
            let tops = row_procs(process_tree(ps, by)).filter(|q: ProcessEntry| is_root(ps, q));
            &&& is_stable_sort(ps.filter(|q: ProcessEntry| is_root(ps, q)), tops, by)
            &&& forall|i: int, j: int| 0 <= i < j < tops.len() ==> !precedes(by, #[trigger] tops[j], #[trigger] tops[i])
            &&& forall|q: ProcessEntry| ps.contains(q) && is_root(ps, q) ==> #[trigger] tops.contains(q)
            &&& forall|q: ProcessEntry| #[trigger] tops.contains(q) ==> ps.contains(q) && is_root(ps, q)
        }),
{
    let pred = |q: ProcessEntry| is_root(ps, q);
    let roots = tree_roots(ps, by);
    lemma_sorted_membership(roots_among(ps, ps), by);
    assert forall|y: ProcessEntry| #[trigger] roots.contains(y) <==> ps.contains(y) && is_root(ps, y) by {
        lemma_filter_membership(ps, pred, y);
    }
    assert forall|k: int| 0 <= k < roots.len() implies ps.contains(#[trigger] roots[k]) && is_root(ps, roots[k]) by {
        assert(roots.contains(roots[k]));
    }
    lemma_tree_procs_rows(ps, by, roots, Seq::empty(), ps.len(), true);
    lemma_tops_of_rows(ps, by, roots, ps.len());
    let tops = row_procs(process_tree(ps, by)).filter(pred);
    assert(tops == roots);
    lemma_stable_sort_exists(roots_among(ps, ps), by);
    let perm = choose|perm: Seq<int>| stable_sorted_by(roots_among(ps, ps), roots, by, perm);
    assert forall|i: int, j: int| 0 <= i < j < tops.len() implies !precedes(by, #[trigger] tops[j], #[trigger] tops[i]) by {
        assert(precedes(by, roots[i], roots[j]) || (!precedes(by, roots[j], roots[i]) && perm[i] < perm[j]));
        lemma_precedes_asym(by, roots[i], roots[j]);
    }
}

} // verus!
