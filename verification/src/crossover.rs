//! Crossover operators.
//!
//! Cycle crossover partitions the gene positions into the cycles induced
//! by the two parents' gene orders; the offspring inherit whole cycles
//! alternately from each parent. Because every cycle carries the same
//! allele multiset in both parents, each offspring is a permutation of its
//! parents' alleles: nothing is duplicated, nothing is lost. Single-point
//! crossover splices the parents' dna at one cut position; it is not
//! permutation safe and applies only when alleles may repeat.

use vstd::prelude::*;
use vstd::multiset::Multiset;
use vstd::pervasive::VecAdditionalExecFns;
use crate::candidate::{Gene, copy_dna};

verus! {

/// No two positions carry the same allele identity.
pub open spec fn distinct_ids(s: Seq<Gene>) -> bool {
    forall|i: int, j: int| 0 <= i < j < s.len() ==> s[i].id != s[j].id
}

/// Every entry of `c` is a position of a dna of length `n`.
pub open spec fn positions_in(c: Seq<usize>, n: int) -> bool {
    forall|t: int| 0 <= t < c.len() ==> (#[trigger] c[t]) < n
}

/// The genes of `s` at the positions `c`, in order.
pub open spec fn genes_at(s: Seq<Gene>, c: Seq<usize>) -> Seq<Gene>
    decreases c.len(),
{
    if c.len() == 0 {
        Seq::empty()
    } else {
        genes_at(s, c.drop_last()).push(s[c.last() as int])
    }
}

pub proof fn lemma_genes_at_index(s: Seq<Gene>, c: Seq<usize>)
    ensures
        genes_at(s, c).len() == c.len(),
        forall|t: int| 0 <= t < c.len() ==> genes_at(s, c)[t] == s[(#[trigger] c[t]) as int],
    decreases c.len(),
{
    if c.len() > 0 {
        lemma_genes_at_index(s, c.drop_last());
        assert forall|t: int| 0 <= t < c.len() implies genes_at(s, c)[t] == s[(
        #[trigger] c[t]) as int] by {
            if t < c.len() - 1 {
                assert(genes_at(s, c)[t] == genes_at(s, c.drop_last())[t]);
                assert(c.drop_last()[t] == c[t]);
            } else {
                assert(genes_at(s, c)[t] == s[c.last() as int]);
            }
        }
    }
}

/// Two dna with the same genes at the positions `c` list the same genes
/// over `c`.
pub proof fn lemma_genes_at_agree(s1: Seq<Gene>, s2: Seq<Gene>, c: Seq<usize>)
    requires
        forall|t: int| 0 <= t < c.len() ==> s1[(#[trigger] c[t]) as int] == s2[c[t] as int],
    ensures
        genes_at(s1, c) == genes_at(s2, c),
{
    lemma_genes_at_index(s1, c);
    lemma_genes_at_index(s2, c);
    assert forall|t: int| 0 <= t < c.len() implies genes_at(s1, c)[t] == genes_at(s2, c)[t] by {
        assert(s1[c[t] as int] == s2[c[t] as int]);
    }
    assert(genes_at(s1, c) =~= genes_at(s2, c));
}

/// The multiset bookkeeping of one position exchange: if the running
/// balance holds and one position's gene moves from `oldg` to `newg`,
/// the balance extended by those two genes holds again.
pub proof fn lemma_exchange_step(
    before: Multiset<Gene>,
    after: Multiset<Gene>,
    base: Multiset<Gene>,
    given: Multiset<Gene>,
    taken: Multiset<Gene>,
    oldg: Gene,
    newg: Gene,
)
    requires
        before.add(given) == base.add(taken),
        after == before.insert(newg).remove(oldg),
        before.count(oldg) > 0,
    ensures
        after.add(given.insert(oldg)) == base.add(taken.insert(newg)),
{
    broadcast use vstd::multiset::group_multiset_axioms;

    assert forall|x: Gene|
        after.add(given.insert(oldg)).count(x) == base.add(taken.insert(newg)).count(x) by {
        vstd::multiset::axiom_multiset_add::<Gene>(before, given, x);
        vstd::multiset::axiom_multiset_add::<Gene>(base, taken, x);
        vstd::multiset::axiom_multiset_add::<Gene>(after, given.insert(oldg), x);
        vstd::multiset::axiom_multiset_add::<Gene>(base, taken.insert(newg), x);
        assert(before.add(given).count(x) == base.add(taken).count(x));
        assert(before.count(x) + given.count(x) == base.count(x) + taken.count(x));
    }
    assert(after.add(given.insert(oldg)) =~= base.add(taken.insert(newg)));
}

/// Extending a position list by one position appends that position's gene.
pub proof fn lemma_genes_at_take_step(s: Seq<Gene>, c: Seq<usize>, k: int)
    requires
        0 <= k < c.len(),
    ensures
        genes_at(s, c.take(k + 1)) == genes_at(s, c.take(k)).push(s[c[k] as int]),
{
    assert(c.take(k + 1).drop_last() =~= c.take(k));
    assert(c.take(k + 1).last() == c[k]);
}

/// A closed cycle lists the same gene multiset in both parents: walking
/// the cycle, each gene of `p2` reappears as the next position's gene of
/// `p1`, wrapping around at the end.
pub proof fn lemma_cycle_multiset(p1: Seq<Gene>, p2: Seq<Gene>, c: Seq<usize>)
    requires
        p1.len() == p2.len(),
        c.len() >= 1,
        positions_in(c, p1.len() as int),
        forall|t: int| 0 <= t < c.len() - 1 ==> p1[(#[trigger] c[t + 1]) as int] == p2[c[t] as int],
        p1[c[0] as int] == p2[c.last() as int],
    ensures
        genes_at(p2, c).to_multiset() == genes_at(p1, c).to_multiset(),
{
    broadcast use vstd::seq_lib::group_to_multiset_ensures;

    let a = genes_at(p1, c);
    let b = genes_at(p2, c);
    lemma_genes_at_index(p1, c);
    lemma_genes_at_index(p2, c);
    // `b` is `a` rotated by one position.
    assert(b =~= a.drop_first().push(a.first())) by {
        assert forall|t: int| 0 <= t < c.len() implies b[t] == a.drop_first().push(a.first())[t] by {
            if t < c.len() - 1 {
                assert(b[t] == p2[c[t] as int]);
                assert(a[t + 1] == p1[c[t + 1] as int]);
            }
        }
    }
    // Rotation preserves the multiset.
    assert(a.remove(0).to_multiset() == a.to_multiset().remove(a[0]));
    assert(a.drop_first() =~= a.remove(0));
    assert(a.drop_first().push(a.first()).to_multiset() =~= a.drop_first().to_multiset().insert(
        a.first(),
    ));
    assert(a.contains(a[0]));
    assert(a.to_multiset().count(a[0]) > 0);
    assert forall|x: Gene| b.to_multiset().count(x) == a.to_multiset().count(x) by {
    }
    assert(b.to_multiset() =~= a.to_multiset());
}

/// A dna with the allele multiset of a duplicate-free dna is itself
/// duplicate free.
pub proof fn lemma_multiset_keeps_distinct(s: Seq<Gene>, t: Seq<Gene>)
    requires
        distinct_ids(s),
        t.to_multiset() == s.to_multiset(),
    ensures
        distinct_ids(t),
{
    assert(s.no_duplicates()) by {
        assert forall|i: int, j: int| 0 <= i < s.len() && 0 <= j < s.len() && i != j
            implies s[i] != s[j] by {
            if i < j {
                assert(s[i].id != s[j].id);
            } else {
                assert(s[j].id != s[i].id);
            }
        }
    }
    s.lemma_multiset_has_no_duplicates();
    t.lemma_multiset_has_no_duplicates_conv();
    assert forall|i: int, j: int| 0 <= i < j < t.len() implies t[i].id != t[j].id by {
        assert(t[i] != t[j]);
        if t[i].id == t[j].id {
            assert(t[i] == Gene { id: t[i].id });
            assert(t[j] == Gene { id: t[j].id });
        }
    }
}

/// A duplicate-free list of positions below `n` has at most `n` entries.
pub proof fn lemma_distinct_positions_bound(c: Seq<usize>, n: int)
    requires
        c.no_duplicates(),
        positions_in(c, n),
        0 <= n,
    ensures
        c.len() <= n,
{
    let ci = c.map_values(|x: usize| x as int);
    assert(ci.no_duplicates()) by {
        assert forall|i: int, j: int| 0 <= i < ci.len() && 0 <= j < ci.len() && i != j
            implies ci[i] != ci[j] by {
            assert(c[i] != c[j]);
        }
    }
    ci.unique_seq_to_set();
    assert(ci.to_set().subset_of(vstd::set_lib::set_int_range(0, n))) by {
        assert forall|x: int| ci.to_set().contains(x)
            implies vstd::set_lib::set_int_range(0, n).contains(x) by {
            assert(ci.contains(x));
            let t = choose|t: int| 0 <= t < ci.len() && ci[t] == x;
            assert(c[t] < n);
        }
    }
    vstd::set_lib::lemma_int_range(0, n);
    vstd::set_lib::lemma_len_subset(ci.to_set(), vstd::set_lib::set_int_range(0, n));
}

/// The cycle map the crossover walks: the position of `p1` carrying the
/// allele that `p2` carries at `i`.
pub open spec fn spec_cycle_next(p1: Seq<Gene>, p2: Seq<Gene>, i: int) -> int {
    choose|j: int| 0 <= j < p1.len() && p1[j] == p2[i]
}

/// Under a shared allele multiset the cycle map is defined everywhere.
pub proof fn lemma_cycle_next_exists(p1: Seq<Gene>, p2: Seq<Gene>, i: int)
    requires
        p1.len() == p2.len(),
        p1.to_multiset() == p2.to_multiset(),
        0 <= i < p2.len(),
    ensures
        0 <= spec_cycle_next(p1, p2, i) < p1.len(),
        p1[spec_cycle_next(p1, p2, i)] == p2[i],
{
    broadcast use vstd::seq_lib::group_to_multiset_ensures;

    assert(p2.contains(p2[i]));
    assert(p2.to_multiset().count(p2[i]) > 0);
    assert(p1.to_multiset().count(p2[i]) > 0);
    assert(p1.contains(p2[i]));
    assert(exists|j: int| 0 <= j < p1.len() && p1[j] == p2[i]);
}

/// Without duplicate alleles any witness position is the map's value.
pub proof fn lemma_cycle_next_is(p1: Seq<Gene>, p2: Seq<Gene>, i: int, j: int)
    requires
        distinct_ids(p1),
        0 <= i < p2.len(),
        0 <= j < p1.len(),
        p1[j] == p2[i],
    ensures
        spec_cycle_next(p1, p2, i) == j,
{
    assert(exists|k: int| 0 <= k < p1.len() && p1[k] == p2[i]);
    let j0 = spec_cycle_next(p1, p2, i);
    assert(0 <= j0 < p1.len() && p1[j0] == p2[i]);
    if j0 != j {
        if j0 < j {
            assert(p1[j0].id != p1[j].id);
        } else {
            assert(p1[j].id != p1[j0].id);
        }
        assert(false);
    }
}

/// `b` lies at most `fuel` steps from `a` along the cycle map.
pub open spec fn spec_reaches(p1: Seq<Gene>, p2: Seq<Gene>, a: int, b: int, fuel: nat) -> bool
    decreases fuel,
{
    a == b || (fuel > 0 && spec_reaches(p1, p2, spec_cycle_next(p1, p2, a), b, (fuel - 1) as nat))
}

/// `a`'s cycle holds `b`: `b` is reachable within one full round.
pub open spec fn spec_same_cycle(p1: Seq<Gene>, p2: Seq<Gene>, a: int, b: int) -> bool {
    spec_reaches(p1, p2, a, b, p1.len() as nat)
}

pub proof fn lemma_reaches_widen(p1: Seq<Gene>, p2: Seq<Gene>, a: int, b: int, f1: nat, f2: nat)
    requires
        spec_reaches(p1, p2, a, b, f1),
        f1 <= f2,
    ensures
        spec_reaches(p1, p2, a, b, f2),
    decreases f1,
{
    if a != b {
        lemma_reaches_widen(p1, p2, spec_cycle_next(p1, p2, a), b, (f1 - 1) as nat, (f2 - 1) as nat);
    }
}

pub proof fn lemma_reaches_extend(p1: Seq<Gene>, p2: Seq<Gene>, a: int, b: int, f: nat)
    requires
        spec_reaches(p1, p2, a, b, f),
    ensures
        spec_reaches(p1, p2, a, spec_cycle_next(p1, p2, b), f + 1),
    decreases f,
{
    if a == b {
        assert(spec_reaches(p1, p2, spec_cycle_next(p1, p2, b), spec_cycle_next(p1, p2, b), f));
    } else {
        lemma_reaches_extend(p1, p2, spec_cycle_next(p1, p2, a), b, (f - 1) as nat);
    }
}

/// Whatever the cycle map reaches from a marked position is marked, as
/// long as the marked set is closed under the map.
pub proof fn lemma_reaches_stays_marked(
    p1: Seq<Gene>,
    p2: Seq<Gene>,
    vis: Seq<bool>,
    a: int,
    b: int,
    f: nat,
)
    requires
        p1.len() == p2.len(),
        vis.len() == p1.len(),
        p1.to_multiset() == p2.to_multiset(),
        forall|i: int, j: int| 0 <= i < p1.len() && 0 <= j < p1.len() && vis[i] && p1[j] == p2[i]
            ==> vis[j],
        0 <= a < p1.len(),
        vis[a],
        spec_reaches(p1, p2, a, b, f),
    ensures
        0 <= b < p1.len(),
        vis[b],
    decreases f,
{
    if a != b {
        lemma_cycle_next_exists(p1, p2, a);
        lemma_reaches_stays_marked(p1, p2, vis, spec_cycle_next(p1, p2, a), b, (f - 1) as nat);
    }
}

/// Walking the map from a cycle's first position reaches each of its
/// positions.
pub proof fn lemma_chain_reach(p1: Seq<Gene>, p2: Seq<Gene>, c: Seq<usize>, t: int)
    requires
        p1.len() == p2.len(),
        distinct_ids(p1),
        positions_in(c, p1.len() as int),
        forall|u: int| 0 <= u < c.len() - 1 ==> p1[(#[trigger] c[u + 1]) as int] == p2[c[u] as int],
        0 <= t < c.len(),
    ensures
        spec_reaches(p1, p2, c[0] as int, c[t] as int, t as nat),
    decreases t,
{
    if t > 0 {
        lemma_chain_reach(p1, p2, c, t - 1);
        assert(p1[(c[(t - 1) + 1]) as int] == p2[c[t - 1] as int]);
        lemma_cycle_next_is(p1, p2, c[t - 1] as int, c[t] as int);
        lemma_reaches_extend(p1, p2, c[0] as int, c[t - 1] as int, (t - 1) as nat);
    }
}

/// Whatever the cycle map reaches from a cycle's first position stays on
/// the cycle.
pub proof fn lemma_cycle_catches(
    p1: Seq<Gene>,
    p2: Seq<Gene>,
    c: Seq<usize>,
    t0: int,
    b: int,
    f: nat,
)
    requires
        p1.len() == p2.len(),
        distinct_ids(p1),
        positions_in(c, p1.len() as int),
        c.len() >= 1,
        forall|u: int| 0 <= u < c.len() - 1 ==> p1[(#[trigger] c[u + 1]) as int] == p2[c[u] as int],
        p1[c[0] as int] == p2[c.last() as int],
        0 <= t0 < c.len(),
        spec_reaches(p1, p2, c[t0] as int, b, f),
    ensures
        c.contains(b as usize),
        0 <= b < p1.len(),
    decreases f,
{
    if c[t0] as int == b {
        assert(c.contains(c[t0]));
    } else {
        if t0 < c.len() - 1 {
            assert(p1[(c[t0 + 1]) as int] == p2[c[t0] as int]);
            lemma_cycle_next_is(p1, p2, c[t0] as int, c[t0 + 1] as int);
            lemma_cycle_catches(p1, p2, c, t0 + 1, b, (f - 1) as nat);
        } else {
            assert(c[t0] == c.last());
            lemma_cycle_next_is(p1, p2, c[t0] as int, c[0] as int);
            lemma_cycle_catches(p1, p2, c, 0, b, (f - 1) as nat);
        }
    }
}

/// The head scan: the first position at or after `h0` whose cycle holds
/// `i`.
pub open spec fn spec_cycle_head_from(p1: Seq<Gene>, p2: Seq<Gene>, i: int, h0: int) -> int
    decreases p1.len() - h0,
{
    if h0 < 0 || h0 >= p1.len() {
        i
    } else if spec_same_cycle(p1, p2, h0, i) {
        h0
    } else {
        spec_cycle_head_from(p1, p2, i, h0 + 1)
    }
}

/// The smallest position of `i`'s cycle.
pub open spec fn spec_cycle_head(p1: Seq<Gene>, p2: Seq<Gene>, i: int) -> int {
    spec_cycle_head_from(p1, p2, i, 0)
}

/// The head scan stops exactly at the first position whose cycle holds
/// `i`.
pub proof fn lemma_head_from_pins(p1: Seq<Gene>, p2: Seq<Gene>, i: int, h0: int, s: int)
    requires
        0 <= h0 <= s < p1.len(),
        spec_same_cycle(p1, p2, s, i),
        forall|h: int| h0 <= h < s ==> !spec_same_cycle(p1, p2, h, i),
    ensures
        spec_cycle_head_from(p1, p2, i, h0) == s,
    decreases s - h0,
{
    if h0 < s {
        lemma_head_from_pins(p1, p2, i, h0 + 1, s);
    }
}

/// The head of a position is a position of its own cycle, no later than
/// the position itself.
pub proof fn lemma_head_from_sat(p1: Seq<Gene>, p2: Seq<Gene>, i: int, h0: int)
    requires
        0 <= h0 <= i < p1.len(),
    ensures
        h0 <= spec_cycle_head_from(p1, p2, i, h0) <= i,
        spec_same_cycle(p1, p2, spec_cycle_head_from(p1, p2, i, h0), i),
    decreases i - h0,
{
    if !spec_same_cycle(p1, p2, h0, i) {
        assert(spec_reaches(p1, p2, i, i, p1.len() as nat));
        assert(h0 != i);
        lemma_head_from_sat(p1, p2, i, h0 + 1);
    }
}

/// How many cycle heads lie strictly below position `m`.
pub open spec fn spec_heads_below(p1: Seq<Gene>, p2: Seq<Gene>, m: int) -> nat
    decreases m,
{
    if m <= 0 {
        0
    } else {
        spec_heads_below(p1, p2, m - 1) + if spec_cycle_head(p1, p2, m - 1) == m - 1 {
            1nat
        } else {
            0nat
        }
    }
}

/// The first offspring takes position `i` from the second parent exactly
/// when `i`'s cycle is odd-numbered, counting cycles in the order of
/// their smallest positions.
pub open spec fn spec_takes_second(p1: Seq<Gene>, p2: Seq<Gene>, i: int) -> bool {
    spec_heads_below(p1, p2, spec_cycle_head(p1, p2, i)) % 2 == 1
}

/// Find the position of the allele `id` within `p`.
fn find_gene_pos(p: &Vec<Gene>, id: i32) -> (r: usize)
    requires
        exists|j: int| 0 <= j < p@.len() && p@[j].id == id,
    ensures
        r < p@.len(),
        p@[r as int].id == id,
{
    let mut i: usize = 0;
    while i < p.len()
        invariant
            i <= p@.len(),
            exists|j: int| 0 <= j < p@.len() && p@[j].id == id,
            forall|j: int| 0 <= j < i ==> p@[j].id != id,
        decreases p@.len() - i,
    {
        if p[i].id == id {
            return i;
        }
        i = i + 1;
    }
    proof {
        assert(false);
    }
    0
}

/// Positions already assigned to a cycle are closed under the cycle map:
/// if position `i` is marked and `p1[i] == p2[j]`, then `j` is marked too.
pub open spec fn preimage_closed(p1: Seq<Gene>, p2: Seq<Gene>, vis: Seq<bool>) -> bool {
    forall|i: int, j: int| 0 <= i < p1.len() && 0 <= j < p1.len() && vis[i]
        && p1[i] == p2[j] ==> vis[j]
}

/// Walk the cycle of positions through `start`: from each position `t`,
/// the next one is where `p1` carries the allele that `p2` carries at `t`.
/// The walk returns to `start`, touches no already-visited position, and
/// never repeats a position.
fn walk_cycle(p1: &Vec<Gene>, p2: &Vec<Gene>, start: usize, visited: &Vec<bool>) -> (c: Vec<
    usize,
>)
    requires
        p1@.len() == p2@.len(),
        visited@.len() == p1@.len(),
        distinct_ids(p1@),
        distinct_ids(p2@),
        p1@.to_multiset() == p2@.to_multiset(),
        start < p1@.len(),
        !visited@[start as int],
        preimage_closed(p1@, p2@, visited@),
    ensures
        c@.len() >= 1,
        c@[0] == start,
        positions_in(c@, p1@.len() as int),
        c@.no_duplicates(),
        forall|t: int| 0 <= t < c@.len() ==> !visited@[(#[trigger] c@[t]) as int],
        forall|t: int| 0 <= t < c@.len() - 1 ==> p1@[(#[trigger] c@[t + 1]) as int]
            == p2@[c@[t] as int],
        p1@[c@[0] as int] == p2@[c@.last() as int],
        forall|t: int, j: int| #![trigger c@[t], p2@[j]] 0 <= t < c@.len() && 0 <= j < p1@.len()
            && p1@[c@[t] as int] == p2@[j] ==> c@.contains(j as usize),
        forall|t: int, j: int| #![trigger c@[t], p1@[j]] 0 <= t < c@.len() && 0 <= j < p1@.len()
            && p2@[c@[t] as int] == p1@[j] ==> c@.contains(j as usize),
        c@.len() <= p1@.len(),
{
    broadcast use vstd::seq_lib::group_to_multiset_ensures;

    let n = p1.len();
    let mut c: Vec<usize> = Vec::new();
    c.push(start);
    proof {
        assert(p2@.contains(p2@[start as int]));
        assert(p2@.to_multiset().count(p2@[start as int]) > 0);
        assert(p1@.to_multiset().count(p2@[start as int]) > 0);
        assert(p1@.contains(p2@[start as int]));
    }
    let mut nxt = find_gene_pos(p1, p2[start].id);
    proof {
        assert(p1@[nxt as int] == p2@[start as int]) by {
            assert(p1@[nxt as int].id == p2@[start as int].id);
        }
    }
    while nxt != start
        invariant
            p1@.len() == n,
            p2@.len() == n,
            visited@.len() == n,
            distinct_ids(p1@),
            distinct_ids(p2@),
            p1@.to_multiset() == p2@.to_multiset(),
            preimage_closed(p1@, p2@, visited@),
            start < n,
            !visited@[start as int],
            nxt < n,
            c@.len() >= 1,
            c@[0] == start,
            positions_in(c@, n as int),
            c@.no_duplicates(),
            forall|t: int| 0 <= t < c@.len() ==> !visited@[(#[trigger] c@[t]) as int],
            forall|t: int| 0 <= t < c@.len() - 1 ==> p1@[(#[trigger] c@[t + 1]) as int]
                == p2@[c@[t] as int],
            p1@[nxt as int] == p2@[c@.last() as int],
            nxt == start || !c@.contains(nxt as usize),
            c@.len() <= n,
        decreases n - c@.len(),
    {
        proof {
            // `nxt` is unvisited: were it visited, its cycle predecessor
            // (the last element of `c`) would be visited too.
            if visited@[nxt as int] {
                assert(visited@[c@.last() as int]);
                assert(c@[c@.len() - 1] == c@.last());
                assert(false);
            }
        }
        let ghost c_before: Seq<usize> = c@;
        c.push(nxt);
        proof {
            broadcast use vstd::seq_lib::group_to_multiset_ensures;

            assert(p2@.contains(p2@[nxt as int]));
            assert(p2@.to_multiset().count(p2@[nxt as int]) > 0);
            assert(p1@.to_multiset().count(p2@[nxt as int]) > 0);
            assert(p1@.contains(p2@[nxt as int]));
            assert forall|t: int| 0 <= t < c@.len() - 1
                implies p1@[(#[trigger] c@[t + 1]) as int] == p2@[c@[t] as int] by {
                if t < c_before.len() - 1 {
                    assert(p1@[c_before[t + 1] as int] == p2@[c_before[t] as int]);
                } else {
                    assert(c@[t + 1] == nxt as usize);
                    assert(c@[t] == c_before.last());
                }
            }
            assert(c@.no_duplicates()) by {
                assert forall|a: int, b: int| 0 <= a < b < c@.len() implies c@[a] != c@[b] by {
                    if b == c@.len() - 1 {
                        assert(c@[a] == c_before[a]);
                        assert(!c_before.contains(nxt as usize));
                    }
                }
            }
            lemma_distinct_positions_bound(c@, n as int);
        }
        let cur = nxt;
        nxt = find_gene_pos(p1, p2[cur].id);
        proof {
            assert(p1@[nxt as int] == p2@[cur as int]) by {
                assert(p1@[nxt as int].id == p2@[cur as int].id);
            }
            // The new `nxt` is either `start` or a fresh position: if it
            // already stood in the cycle at position `t > 0`, then `p2`
            // would carry one allele at two positions.
            if nxt != start && c@.contains(nxt as usize) {
                let t = choose|t: int| 0 <= t < c@.len() && c@[t] == nxt as usize;
                assert(t > 0);
                assert(p1@[(c@[(t - 1) + 1]) as int] == p2@[c@[t - 1] as int]);
                assert(p2@[c@[t - 1] as int].id == p2@[cur as int].id);
                if t - 1 < c@.len() - 1 {
                    assert(c@[t - 1] != c@[c@.len() - 1]);
                    assert(false);
                }
                assert(c@[t] == c@[c@.len() - 1]);
                assert(false);
            }
        }
    }
    proof {
        // Every cycle position's allele in `p1` reappears in `p2` only at
        // a cycle position.
        assert forall|t: int, j: int| #![trigger c@[t], p2@[j]] 0 <= t < c@.len() && 0 <= j
            < p1@.len() && p1@[c@[t] as int] == p2@[j] implies c@.contains(j as usize) by {
            if t == 0 {
                assert(p1@[c@[0] as int] == p2@[c@.last() as int]);
                if j != c@.len() - 1 {
                    if (c@[c@.len() - 1] as int) != j {
                        assert(p2@[c@[c@.len() - 1] as int].id == p2@[j].id);
                        assert(false);
                    }
                }
                assert(c@.contains(c@[c@.len() - 1]));
            } else {
                assert(p1@[(c@[(t - 1) + 1]) as int] == p2@[c@[t - 1] as int]);
                if (c@[t - 1] as int) != j {
                    assert(p2@[c@[t - 1] as int].id == p2@[j].id);
                    assert(false);
                }
                assert(c@.contains(c@[t - 1]));
            }
        }
        // Every cycle position's allele in `p2` reappears in `p1` only at
        // a cycle position: the cycle is closed under the cycle map.
        assert forall|t: int, j: int| #![trigger c@[t], p1@[j]] 0 <= t < c@.len() && 0 <= j
            < p1@.len() && p2@[c@[t] as int] == p1@[j] implies c@.contains(j as usize) by {
            if t < c@.len() - 1 {
                assert(p1@[(c@[t + 1]) as int] == p2@[c@[t] as int]);
                if (c@[t + 1] as int) != j {
                    assert(p1@[c@[t + 1] as int].id == p1@[j].id);
                    assert(false);
                }
                assert(c@.contains(c@[t + 1]));
            } else {
                assert(c@[t] == c@.last());
                assert(p1@[c@[0] as int] == p2@[c@.last() as int]);
                if (c@[0] as int) != j {
                    assert(p1@[c@[0] as int].id == p1@[j].id);
                    assert(false);
                }
                assert(c@.contains(c@[0]));
            }
        }
    }
    c
}

/// Overwrite the positions of the cycle `c` in `child` with the genes of
/// `src` at those positions. Exchanging a whole cycle keeps the multiset
/// balance: what leaves `child` over `c` is exactly what `src` carries
/// over `c`.
fn apply_cycle(child: &mut Vec<Gene>, src: &Vec<Gene>, c: &Vec<usize>)
    requires
        old(child)@.len() == src@.len(),
        positions_in(c@, src@.len() as int),
        c@.no_duplicates(),
    ensures
        final(child)@.len() == old(child)@.len(),
        forall|t: int| 0 <= t < c@.len() ==> final(child)@[(#[trigger] c@[t]) as int]
            == src@[c@[t] as int],
        forall|i: int| 0 <= i < old(child)@.len() && !c@.contains(i as usize)
            ==> final(child)@[i] == old(child)@[i],
        final(child)@.to_multiset().add(genes_at(old(child)@, c@).to_multiset())
            == old(child)@.to_multiset().add(genes_at(src@, c@).to_multiset()),
{
    let ghost child0: Seq<Gene> = old(child)@;
    let mut k: usize = 0;
    proof {
        broadcast use vstd::seq_lib::group_to_multiset_ensures;
        broadcast use vstd::multiset::group_multiset_axioms;

        assert(c@.take(0) =~= Seq::<usize>::empty());
        assert(genes_at(child0, c@.take(0)) =~= Seq::<Gene>::empty());
        assert(genes_at(src@, c@.take(0)) =~= Seq::<Gene>::empty());
        vstd::multiset::lemma_multiset_empty_len::<Gene>(Seq::<Gene>::empty().to_multiset());
        assert(Seq::<Gene>::empty().to_multiset() =~= Multiset::<Gene>::empty());
        assert(child0.to_multiset().add(Multiset::<Gene>::empty()) =~= child0.to_multiset());
    }
    while k < c.len()
        invariant
            k <= c@.len(),
            child@.len() == child0.len(),
            child0.len() == src@.len(),
            positions_in(c@, src@.len() as int),
            c@.no_duplicates(),
            forall|t: int| 0 <= t < k ==> child@[(#[trigger] c@[t]) as int] == src@[c@[t] as int],
            forall|i: int| 0 <= i < child0.len() && !c@.take(k as int).contains(i as usize)
                ==> child@[i] == child0[i],
            child@.to_multiset().add(genes_at(child0, c@.take(k as int)).to_multiset())
                == child0.to_multiset().add(genes_at(src@, c@.take(k as int)).to_multiset()),
        decreases c@.len() - k,
    {
        broadcast use vstd::seq_lib::group_to_multiset_ensures;

        let i = c[k];
        let ghost child_prev: Seq<Gene> = child@;
        proof {
            assert(!c@.take(k as int).contains(c@[k as int])) by {
                if c@.take(k as int).contains(c@[k as int]) {
                    let t = choose|t: int| 0 <= t < k && c@.take(k as int)[t] == c@[k as int];
                    assert(c@[t] == c@[k as int]);
                    assert(false);
                }
            }
            assert(child_prev[i as int] == child0[i as int]);
        }
        let g = src[i];
        child.set(i, g);
        k = k + 1;
        proof {
            broadcast use vstd::seq_lib::group_to_multiset_ensures;

            lemma_genes_at_take_step(child0, c@, k as int - 1);
            lemma_genes_at_take_step(src@, c@, k as int - 1);
            assert(child@ == child_prev.update(i as int, src@[i as int]));
            assert(child@.to_multiset() == child_prev.to_multiset().insert(src@[i as int]).remove(
                child_prev[i as int],
            ));
            assert(child_prev.contains(child_prev[i as int]));
            assert(child_prev.to_multiset().count(child_prev[i as int]) > 0);
            assert(genes_at(child0, c@.take(k as int - 1)).push(child0[i as int]).to_multiset()
                == genes_at(child0, c@.take(k as int - 1)).to_multiset().insert(child0[i as int]));
            assert(genes_at(src@, c@.take(k as int - 1)).push(src@[i as int]).to_multiset()
                == genes_at(src@, c@.take(k as int - 1)).to_multiset().insert(src@[i as int]));
            lemma_exchange_step(
                child_prev.to_multiset(),
                child@.to_multiset(),
                child0.to_multiset(),
                genes_at(child0, c@.take(k as int - 1)).to_multiset(),
                genes_at(src@, c@.take(k as int - 1)).to_multiset(),
                child_prev[i as int],
                src@[i as int],
            );
            assert forall|t: int| 0 <= t < k implies child@[(#[trigger] c@[t]) as int]
                == src@[c@[t] as int] by {
                if t < k - 1 {
                    assert(c@[t] != c@[k - 1]);
                }
            }
        }
    }
    proof {
        assert(c@.take(c@.len() as int) =~= c@);
    }
}

/// Cycle crossover of two permutation-encoded parents. The two offspring
/// inherit the positions of each cycle alternately: the first cycle goes
/// to the first child from the first parent, the next cycle from the
/// second parent, and so on. Each offspring takes every position from one
/// of the two parents, and each offspring's allele multiset equals the
/// parents' common allele multiset: the permutation encoding is preserved.
pub fn cycle_crossover(p1: &Vec<Gene>, p2: &Vec<Gene>) -> (r: (Vec<Gene>, Vec<Gene>))
    requires
        p1@.len() == p2@.len(),
        distinct_ids(p1@),
        distinct_ids(p2@),
        p1@.to_multiset() == p2@.to_multiset(),
    ensures
        r.0@.len() == p1@.len(),
        r.1@.len() == p1@.len(),
        r.0@.to_multiset() == p1@.to_multiset(),
        r.1@.to_multiset() == p1@.to_multiset(),
        forall|i: int| 0 <= i < p1@.len() ==> (#[trigger] r.0@[i]) == p1@[i] || r.0@[i] == p2@[i],
        forall|i: int| 0 <= i < p1@.len() ==> (#[trigger] r.1@[i]) == p1@[i] || r.1@[i] == p2@[i],
        forall|i: int| 0 <= i < p1@.len() ==> ((#[trigger] r.0@[i]) == p1@[i] && r.1@[i]
            == p2@[i]) || (r.0@[i] == p2@[i] && r.1@[i] == p1@[i]),
        forall|i: int| 0 <= i < p1@.len() ==> (#[trigger] r.0@[i]) == (if spec_takes_second(
            p1@,
            p2@,
            i,
        ) {
            p2@[i]
        } else {
            p1@[i]
        }),
        distinct_ids(r.0@),
        distinct_ids(r.1@),
{
    let n = p1.len();
    let mut child1 = copy_dna(p1);
    let mut child2 = copy_dna(p2);
    let mut visited: Vec<bool> = Vec::new();
    let mut i: usize = 0;
    while i < n
        invariant
            i <= n,
            visited@.len() == i,
            forall|t: int| 0 <= t < i ==> !visited@[t],
        decreases n - i,
    {
        visited.push(false);
        i = i + 1;
    }
    let mut parity: bool = false;
    let mut s: usize = 0;
    proof {
        assert forall|i: int| 0 <= i < n implies !(spec_cycle_head(p1@, p2@, i) < 0) by {
            lemma_head_from_sat(p1@, p2@, i, 0);
        }
    }
    while s < n
        invariant
            s <= n,
            p1@.len() == n,
            p2@.len() == n,
            visited@.len() == n,
            child1@.len() == n,
            child2@.len() == n,
            distinct_ids(p1@),
            distinct_ids(p2@),
            p1@.to_multiset() == p2@.to_multiset(),
            preimage_closed(p1@, p2@, visited@),
            forall|i: int, j: int| 0 <= i < n && 0 <= j < n && visited@[i] && p1@[j] == p2@[i]
                ==> visited@[j],
            forall|t: int| 0 <= t < s ==> visited@[t],
            forall|i: int| 0 <= i < n ==> (visited@[i] <==> spec_cycle_head(p1@, p2@, i)
                < s as int),
            parity == (spec_heads_below(p1@, p2@, s as int) % 2 == 1),
            forall|i: int| 0 <= i < n && !visited@[i] ==> child1@[i] == p1@[i] && child2@[i]
                == p2@[i],
            forall|i: int| 0 <= i < n && visited@[i] ==> (#[trigger] child1@[i]) == (
            if spec_takes_second(p1@, p2@, i) {
                p2@[i]
            } else {
                p1@[i]
            }),
            forall|i: int| 0 <= i < n ==> (((#[trigger] child1@[i]) == p1@[i] && child2@[i]
                == p2@[i]) || (child1@[i] == p2@[i] && child2@[i] == p1@[i])),
            child1@.to_multiset() == p1@.to_multiset(),
            child2@.to_multiset() == p2@.to_multiset(),
        decreases n - s,
    {
        if !visited[s] {
            let c = walk_cycle(p1, p2, s, &visited);
            let ghost child1_before: Seq<Gene> = child1@;
            let ghost child2_before: Seq<Gene> = child2@;
            if parity {
                // An odd cycle: the first child takes it from the second
                // parent, the second child from the first parent.
                apply_cycle(&mut child1, p2, &c);
                apply_cycle(&mut child2, p1, &c);
                proof {
                    broadcast use vstd::multiset::group_multiset_axioms;

                    lemma_cycle_multiset(p1@, p2@, c@);
                    lemma_genes_at_agree(child1_before, p1@, c@);
                    lemma_genes_at_agree(child2_before, p2@, c@);
                    assert forall|x: Gene| child1@.to_multiset().count(x)
                        == p1@.to_multiset().count(x) by {
                        assert(child1@.to_multiset().add(genes_at(child1_before, c@).to_multiset()).count(
                            x,
                        ) == child1_before.to_multiset().add(genes_at(p2@, c@).to_multiset()).count(x));
                        assert(genes_at(child1_before, c@).to_multiset().count(x) == genes_at(
                            p1@,
                            c@,
                        ).to_multiset().count(x));
                        assert(genes_at(p2@, c@).to_multiset().count(x) == genes_at(
                            p1@,
                            c@,
                        ).to_multiset().count(x));
                    }
                    assert(child1@.to_multiset() =~= p1@.to_multiset());
                    assert forall|x: Gene| child2@.to_multiset().count(x)
                        == p2@.to_multiset().count(x) by {
                        assert(child2@.to_multiset().add(genes_at(child2_before, c@).to_multiset()).count(
                            x,
                        ) == child2_before.to_multiset().add(genes_at(p1@, c@).to_multiset()).count(x));
                        assert(genes_at(child2_before, c@).to_multiset().count(x) == genes_at(
                            p2@,
                            c@,
                        ).to_multiset().count(x));
                        assert(genes_at(p1@, c@).to_multiset().count(x) == genes_at(
                            p2@,
                            c@,
                        ).to_multiset().count(x));
                    }
                    assert(child2@.to_multiset() =~= p2@.to_multiset());
                }
            }
            // Mark the whole cycle visited.
            let ghost visited_before: Seq<bool> = visited@;
            let mut k: usize = 0;
            while k < c.len()
                invariant
                    k <= c@.len(),
                    visited@.len() == n,
                    positions_in(c@, n as int),
                    forall|t: int| 0 <= t < c@.len() ==> !visited_before[(#[trigger] c@[t]) as int],
                    forall|i: int| 0 <= i < n && !c@.take(k as int).contains(i as usize)
                        ==> visited@[i] == visited_before[i],
                    forall|t: int| 0 <= t < k ==> visited@[(#[trigger] c@[t]) as int],
                    forall|i: int| 0 <= i < n && visited@[i] ==> visited_before[i] || c@.contains(
                        i as usize,
                    ),
                decreases c@.len() - k,
            {
                let pos = c[k];
                visited.set(pos, true);
                k = k + 1;
                proof {
                    assert forall|i: int| 0 <= i < n && !c@.take(k as int).contains(i as usize)
                        implies visited@[i] == visited_before[i] by {
                        assert(i != pos as int) by {
                            if i == pos as int {
                                assert(c@.take(k as int)[k - 1] == c@[k - 1]);
                                assert(c@.take(k as int).contains(c@[k - 1]));
                            }
                        }
                    }
                    assert(c@.contains(c@[k - 1]));
                }
            }
            proof {
                // The enlarged visited set stays closed under the cycle map.
                assert forall|a: int, b: int| 0 <= a < n && 0 <= b < n && visited@[a]
                    && p1@[a] == p2@[b] implies visited@[b] by {
                    if visited_before[a] {
                        assert(visited_before[b]);
                        assert(!c@.take(c@.len() as int).contains(b as usize) ==> visited@[b]
                            == visited_before[b]);
                        if c@.take(c@.len() as int).contains(b as usize) {
                            let t = choose|t: int| 0 <= t < c@.len() && c@[t] == b as usize;
                            assert(visited@[(c@[t]) as int]);
                        }
                    } else {
                        assert(c@.contains(a as usize));
                        let t = choose|t: int| 0 <= t < c@.len() && c@[t] == a as usize;
                        assert(p1@[(c@[t]) as int] == p2@[b]);
                        assert(c@.contains(b as usize));
                        let u = choose|u: int| 0 <= u < c@.len() && c@[u] == b as usize;
                        assert(visited@[(c@[u]) as int]);
                    }
                }
                assert forall|t: int| 0 <= t <= s implies visited@[t] by {
                    if t < s {
                        assert(visited_before[t]);
                        if c@.take(c@.len() as int).contains(t as usize) {
                            let u = choose|u: int| 0 <= u < c@.len() && c@[u] == t as usize;
                            assert(visited@[(c@[u]) as int]);
                        }
                    } else {
                        assert(c@[0] == s);
                        assert(visited@[(c@[0]) as int]);
                    }
                }
                // Marking only adds positions.
                assert forall|i: int| 0 <= i < n && visited_before[i] implies visited@[i] by {
                    if c@.take(c@.len() as int).contains(i as usize) {
                        let u = choose|u: int| 0 <= u < c@.len() && c@[u] == i as usize;
                        assert(visited@[(c@[u]) as int]);
                    }
                }
                // Every position of the walked cycle has head `s`: the
                // walk reaches it from `s`, and no smaller position can,
                // since everything a visited position reaches is visited.
                assert forall|t: int| 0 <= t < c@.len()
                    implies spec_cycle_head(p1@, p2@, (#[trigger] c@[t]) as int) == s as int by {
                    lemma_chain_reach(p1@, p2@, c@, t);
                    lemma_reaches_widen(
                        p1@,
                        p2@,
                        c@[0] as int,
                        c@[t] as int,
                        t as nat,
                        p1@.len() as nat,
                    );
                    assert(spec_same_cycle(p1@, p2@, s as int, c@[t] as int));
                    assert forall|h: int| 0 <= h < s as int
                        implies !spec_same_cycle(p1@, p2@, h, c@[t] as int) by {
                        if spec_same_cycle(p1@, p2@, h, c@[t] as int) {
                            lemma_reaches_stays_marked(
                                p1@,
                                p2@,
                                visited_before,
                                h,
                                c@[t] as int,
                                p1@.len() as nat,
                            );
                            assert(false);
                        }
                    }
                    lemma_head_from_pins(p1@, p2@, c@[t] as int, 0, s as int);
                }
                // The cycle's first position is a new head.
                assert(spec_cycle_head(p1@, p2@, (c@[0]) as int) == s as int);
                assert(spec_heads_below(p1@, p2@, s as int + 1) == spec_heads_below(
                    p1@,
                    p2@,
                    s as int,
                ) + 1);
                // Exactly the positions of heads below `s + 1` are now
                // visited.
                assert forall|i: int| 0 <= i < n implies (visited@[i] <==> spec_cycle_head(
                    p1@,
                    p2@,
                    i,
                ) < s as int + 1) by {
                    if visited@[i] {
                        if !visited_before[i] {
                            assert(c@.contains(i as usize));
                            let t = choose|t: int| 0 <= t < c@.len() && c@[t] == i as usize;
                            assert(spec_cycle_head(p1@, p2@, (c@[t]) as int) == s as int);
                        }
                    } else {
                        assert(!visited_before[i]);
                        if spec_cycle_head(p1@, p2@, i) == s as int {
                            lemma_head_from_sat(p1@, p2@, i, 0);
                            lemma_cycle_catches(p1@, p2@, c@, 0, i, p1@.len() as nat);
                            assert(c@.contains(i as usize));
                            let t = choose|t: int| 0 <= t < c@.len() && c@[t] == i as usize;
                            assert(visited@[(c@[t]) as int]);
                            assert(false);
                        }
                    }
                }
                // Every visited position of the first child now carries
                // the parent its cycle's parity prescribes.
                assert forall|i: int| 0 <= i < n && visited@[i] implies (#[trigger] child1@[i])
                    == (if spec_takes_second(p1@, p2@, i) {
                    p2@[i]
                } else {
                    p1@[i]
                }) by {
                    if visited_before[i] {
                        assert(!c@.contains(i as usize));
                        assert(child1@[i] == child1_before[i]);
                    } else {
                        assert(c@.contains(i as usize));
                        let t = choose|t: int| 0 <= t < c@.len() && c@[t] == i as usize;
                        assert(spec_cycle_head(p1@, p2@, (c@[t]) as int) == s as int);
                        assert(spec_takes_second(p1@, p2@, i) == (spec_heads_below(
                            p1@,
                            p2@,
                            s as int,
                        ) % 2 == 1));
                        if parity {
                            assert(child1@[(c@[t]) as int] == p2@[c@[t] as int]);
                        } else {
                            assert(child1@[i] == child1_before[i]);
                        }
                    }
                }
                // The enlarged visited set stays closed under the cycle
                // map in the forward direction too.
                assert forall|a: int, b: int| 0 <= a < n && 0 <= b < n && visited@[a]
                    && p1@[b] == p2@[a] implies visited@[b] by {
                    if visited_before[a] {
                        assert(visited_before[b]);
                    } else {
                        assert(c@.contains(a as usize));
                        let t = choose|t: int| 0 <= t < c@.len() && c@[t] == a as usize;
                        assert(p2@[(c@[t]) as int] == p1@[b]);
                        assert(c@.contains(b as usize));
                        let u = choose|u: int| 0 <= u < c@.len() && c@[u] == b as usize;
                        assert(visited@[(c@[u]) as int]);
                    }
                }
            }
            parity = !parity;
        } else {
            proof {
                // `s` belongs to an earlier cycle, so it is no head, and
                // nothing changes: any position whose head were `s` would
                // be reachable from `s` and hence already visited.
                assert(spec_cycle_head(p1@, p2@, s as int) < s as int);
                assert(spec_heads_below(p1@, p2@, s as int + 1) == spec_heads_below(
                    p1@,
                    p2@,
                    s as int,
                ));
                assert forall|i: int| 0 <= i < n implies (visited@[i] <==> spec_cycle_head(
                    p1@,
                    p2@,
                    i,
                ) < s as int + 1) by {
                    if !visited@[i] && spec_cycle_head(p1@, p2@, i) == s as int {
                        lemma_head_from_sat(p1@, p2@, i, 0);
                        lemma_reaches_stays_marked(
                            p1@,
                            p2@,
                            visited@,
                            s as int,
                            i,
                            p1@.len() as nat,
                        );
                        assert(false);
                    }
                }
            }
        }
        s = s + 1;
    }
    proof {
        lemma_multiset_keeps_distinct(p1@, child1@);
        lemma_multiset_keeps_distinct(p1@, child2@);
        assert forall|i: int| 0 <= i < n implies (#[trigger] child2@[i]) == p1@[i] || child2@[i]
            == p2@[i] by {
            assert(child1@[i] == p1@[i] || child1@[i] == p2@[i]);
        }
        assert forall|i: int| 0 <= i < n implies (#[trigger] child1@[i]) == (
        if spec_takes_second(p1@, p2@, i) {
            p2@[i]
        } else {
            p1@[i]
        }) by {
            assert(visited@[i]);
        }
    }
    (child1, child2)
}

/// Single-point crossover: splice both parents at the cut position `cut`.
/// The first offspring takes the prefix of the first parent and the
/// suffix of the second; the second offspring the other way around. The
/// offspring lengths equal the parents' length. Not permutation safe.
pub fn single_point_crossover(p1: &Vec<Gene>, p2: &Vec<Gene>, cut: usize) -> (r: (Vec<Gene>, Vec<
    Gene,
>))
    requires
        p1@.len() == p2@.len(),
        cut <= p1@.len(),
    ensures
        r.0@ == p1@.take(cut as int) + p2@.skip(cut as int),
        r.1@ == p2@.take(cut as int) + p1@.skip(cut as int),
        r.0@.len() == p1@.len(),
        r.1@.len() == p1@.len(),
{
    let n = p1.len();
    let mut c1: Vec<Gene> = Vec::new();
    let mut c2: Vec<Gene> = Vec::new();
    let mut i: usize = 0;
    while i < n
        invariant
            i <= n,
            p1@.len() == n,
            p2@.len() == n,
            cut <= n,
            c1@.len() == i,
            c2@.len() == i,
            forall|j: int| 0 <= j < i ==> (#[trigger] c1@[j]) == if j < cut as int {
                p1@[j]
            } else {
                p2@[j]
            },
            forall|j: int| 0 <= j < i ==> (#[trigger] c2@[j]) == if j < cut as int {
                p2@[j]
            } else {
                p1@[j]
            },
        decreases n - i,
    {
        if i < cut {
            c1.push(p1[i]);
            c2.push(p2[i]);
        } else {
            c1.push(p2[i]);
            c2.push(p1[i]);
        }
        i = i + 1;
    }
    proof {
        assert(c1@ =~= p1@.take(cut as int) + p2@.skip(cut as int));
        assert(c2@ =~= p2@.take(cut as int) + p1@.skip(cut as int));
    }
    (c1, c2)
}

} // verus!
