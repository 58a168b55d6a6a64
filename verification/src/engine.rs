//! The generation engine: one tick of the automaton on a sparse lattice.

use crate::lattice::Lattice;
use crate::math::IVec2;
use crate::tally::{max_entries, tallies, NeighborCounts};
use vstd::prelude::*;

verus! {

/// The thresholds of the transition rule.
#[derive(Clone, Copy, Debug, PartialEq, Eq, Structural)]
pub struct Rule {
    /// A live site stays live exactly when it has this many live neighbours.
    pub survive: usize,
    /// A dead site becomes live exactly when it has this many live neighbours.
    pub birth: usize,
    /// An upper sentinel, kept with the rule; the transition does not read it.
    pub die: usize,
}

pub const SURVIVE_NUM: usize = 2;

pub const BIRTH_NUM: usize = 3;

pub const DIE_NUM: usize = 4;

impl Default for Rule {
    fn default() -> (rule: Rule)
        ensures
            rule == (Rule { survive: SURVIVE_NUM, birth: BIRTH_NUM, die: DIE_NUM }),
    {
        Rule { survive: SURVIVE_NUM, birth: BIRTH_NUM, die: DIE_NUM }
    }
}

/// The largest lattice that `step` takes: eight table entries for each live
/// site must stay within what the table of counts can hold.
pub const MAX_CELLS: usize = usize::MAX / 1024;

/// The eight offsets of the Moore neighbourhood, numbered 0 to 7.
pub open spec fn offset(i: int) -> IVec2 {
    if i == 0 {
        IVec2 { x: (-1) as i32, y: (-1) as i32 }
    } else if i == 1 {
        IVec2 { x: (-1) as i32, y: 0 }
    } else if i == 2 {
        IVec2 { x: (-1) as i32, y: 1 }
    } else if i == 3 {
        IVec2 { x: 0, y: (-1) as i32 }
    } else if i == 4 {
        IVec2 { x: 0, y: 1 }
    } else if i == 5 {
        IVec2 { x: 1, y: (-1) as i32 }
    } else if i == 6 {
        IVec2 { x: 1, y: 0 }
    } else {
        IVec2 { x: 1, y: 1 }
    }
}

/// The `i`-th neighbour of a site. Coordinates wrap at the ends of their range.
pub open spec fn neighbor(site: IVec2, i: int) -> IVec2 {
    site.spec_wrapping_add(offset(i))
}

/// How many of the first `n` neighbours of `site` are live.
pub open spec fn live_among(live: Set<IVec2>, site: IVec2, n: int) -> int
    decreases n,
{
    if n <= 0 {
        0
    } else {
        live_among(live, site, n - 1) + if live.contains(neighbor(site, n - 1)) {
            1int
        } else {
            0int
        }
    }
}

/// The number of live sites among the eight neighbours of `site`.
pub open spec fn live_neighbors(live: Set<IVec2>, site: IVec2) -> int {
    live_among(live, site, 8)
}

/// Whether `site` is live in the generation that follows `live`: a live site
/// needs `survive` live neighbours; a dead site needs `birth` of them, and at
/// least one.
pub open spec fn alive_next(live: Set<IVec2>, rule: Rule, site: IVec2) -> bool {
    if live.contains(site) {
        live_neighbors(live, site) == rule.survive
    } else {
        live_neighbors(live, site) > 0 && live_neighbors(live, site) == rule.birth
    }
}

/// The generation that follows `live` under `rule`.
pub open spec fn next_generation(live: Set<IVec2>, rule: Rule) -> Set<IVec2> {
    Set::new(|site: IVec2| alive_next(live, rule, site))
}

/// The live set moved by `by`: a site is live in it exactly when the site
/// that lies `by` before it is live in `live`.
pub open spec fn translated(live: Set<IVec2>, by: IVec2) -> Set<IVec2> {
    Set::new(|site: IVec2| live.contains(site.spec_wrapping_sub(by)))
}

/// Nothing comes of nothing: under every rule the empty lattice stays empty.
pub proof fn lemma_empty_stays_empty(rule: Rule)
    ensures
        next_generation(Set::empty(), rule) == Set::<IVec2>::empty(),
{
    assert forall|site: IVec2| !alive_next(Set::empty(), rule, site) by {
        lemma_live_among_empty(site, 8);
    }
    assert(next_generation(Set::empty(), rule) =~= Set::<IVec2>::empty());
}

/// The engine reads the live sites relative to one another only: moving
/// the lattice and then stepping it gives what stepping it and then moving
/// it gives.
pub proof fn lemma_generation_of_translated(live: Set<IVec2>, rule: Rule, by: IVec2)
    ensures
        next_generation(translated(live, by), rule) == translated(
            next_generation(live, rule),
            by,
        ),
{
    assert forall|site: IVec2|
        alive_next(translated(live, by), rule, site) == alive_next(
            live,
            rule,
            site.spec_wrapping_sub(by),
        ) by {
        lemma_live_among_translated(live, by, site, 8);
    }
    assert(next_generation(translated(live, by), rule) =~= translated(
        next_generation(live, rule),
        by,
    ));
}

proof fn lemma_live_among_translated(live: Set<IVec2>, by: IVec2, site: IVec2, n: int)
    requires
        0 <= n <= 8,
    ensures
        live_among(translated(live, by), site, n) == live_among(
            live,
            site.spec_wrapping_sub(by),
            n,
        ),
    decreases n,
{
    if n > 0 {
        lemma_live_among_translated(live, by, site, n - 1);
        assert(neighbor(site, n - 1).spec_wrapping_sub(by) == neighbor(
            site.spec_wrapping_sub(by),
            n - 1,
        ));
    }
}

/// The `i`-th offset of the neighbourhood.
pub fn neighbor_offset(i: usize) -> (d: IVec2)
    requires
        i < 8,
    ensures
        d == offset(i as int),
{
    if i == 0 {
        IVec2 { x: -1, y: -1 }
    } else if i == 1 {
        IVec2 { x: -1, y: 0 }
    } else if i == 2 {
        IVec2 { x: -1, y: 1 }
    } else if i == 3 {
        IVec2 { x: 0, y: -1 }
    } else if i == 4 {
        IVec2 { x: 0, y: 1 }
    } else if i == 5 {
        IVec2 { x: 1, y: -1 }
    } else if i == 6 {
        IVec2 { x: 1, y: 0 }
    } else {
        IVec2 { x: 1, y: 1 }
    }
}

/// How many of the first `n` neighbours of `from` are the site `at`.
spec fn hits(from: IVec2, at: IVec2, n: int) -> int
    decreases n,
{
    if n <= 0 {
        0
    } else {
        hits(from, at, n - 1) + if neighbor(from, n - 1) == at {
            1int
        } else {
            0int
        }
    }
}

/// How many of the first `n` neighbours of `at` are the site `from`.
spec fn back_hits(from: IVec2, at: IVec2, n: int) -> int
    decreases n,
{
    if n <= 0 {
        0
    } else {
        back_hits(from, at, n - 1) + if neighbor(at, n - 1) == from {
            1int
        } else {
            0int
        }
    }
}

/// The count that a table of entries gives a site: zero without an entry.
spec fn count_in(entries: Map<IVec2, usize>, site: IVec2) -> int {
    if entries.contains_key(site) {
        entries[site] as int
    } else {
        0
    }
}

/// Whether `site` is among the first `n` items of `sites`.
spec fn in_prefix(sites: Seq<IVec2>, n: int, site: IVec2) -> bool {
    exists|i: int| 0 <= i < n && i < sites.len() && sites[i] == site
}

proof fn lemma_live_among_bounds(live: Set<IVec2>, site: IVec2, n: int)
    requires
        0 <= n,
    ensures
        0 <= live_among(live, site, n) <= n,
    decreases n,
{
    if n > 0 {
        lemma_live_among_bounds(live, site, n - 1);
    }
}

proof fn lemma_hits_bounds(from: IVec2, at: IVec2, n: int)
    requires
        0 <= n,
    ensures
        0 <= hits(from, at, n) <= n,
    decreases n,
{
    if n > 0 {
        lemma_hits_bounds(from, at, n - 1);
    }
}

/// Stepping by an offset and then by the opposite one leads back: `from` is
/// the `i`-th neighbour of `at` exactly when `at` is the `7 - i`-th of `from`.
proof fn lemma_neighbor_symmetric(from: IVec2, at: IVec2, i: int)
    requires
        0 <= i < 8,
    ensures
        neighbor(at, i) == from <==> neighbor(from, 7 - i) == at,
{
}

proof fn lemma_hits_symmetric(from: IVec2, at: IVec2)
    ensures
        hits(from, at, 8) == back_hits(from, at, 8),
{
    reveal_with_fuel(hits, 9);
    reveal_with_fuel(back_hits, 9);
    lemma_neighbor_symmetric(from, at, 0);
    lemma_neighbor_symmetric(from, at, 1);
    lemma_neighbor_symmetric(from, at, 2);
    lemma_neighbor_symmetric(from, at, 3);
    lemma_neighbor_symmetric(from, at, 4);
    lemma_neighbor_symmetric(from, at, 5);
    lemma_neighbor_symmetric(from, at, 6);
    lemma_neighbor_symmetric(from, at, 7);
}

/// A site that joins the live set adds, to the count of each site, one for
/// each way in which it is that site's neighbour.
proof fn lemma_live_among_insert(live: Set<IVec2>, from: IVec2, at: IVec2, n: int)
    requires
        !live.contains(from),
        0 <= n,
    ensures
        live_among(live.insert(from), at, n) == live_among(live, at, n) + back_hits(from, at, n),
    decreases n,
{
    if n > 0 {
        lemma_live_among_insert(live, from, at, n - 1);
    }
}

proof fn lemma_live_among_empty(site: IVec2, n: int)
    ensures
        live_among(Set::empty(), site, n) == 0,
    decreases n,
{
    if n > 0 {
        lemma_live_among_empty(site, n - 1);
    }
}

proof fn lemma_in_prefix_step(sites: Seq<IVec2>, n: int, site: IVec2)
    requires
        0 <= n < sites.len(),
    ensures
        in_prefix(sites, n + 1, site) <==> in_prefix(sites, n, site) || sites[n] == site,
{
    if in_prefix(sites, n + 1, site) {
        let k = choose|k: int| 0 <= k < n + 1 && k < sites.len() && sites[k] == site;
        if k < n {
            assert(in_prefix(sites, n, site));
        }
    }
    if in_prefix(sites, n, site) {
        let k = choose|k: int| 0 <= k < n && k < sites.len() && sites[k] == site;
        assert(0 <= k < n + 1 && k < sites.len() && sites[k] == site);
    }
    if sites[n] == site {
        assert(0 <= n < n + 1 && n < sites.len() && sites[n] == site);
    }
}

/// Adds one to the count of each neighbour of `site`.
fn count_neighbors(counts: &mut NeighborCounts, site: IVec2, Ghost(seen): Ghost<Set<IVec2>>)
    requires
        seen.finite(),
        !seen.contains(site),
        tallies(*old(counts)).dom().finite(),
        tallies(*old(counts)).dom().len() <= 8 * seen.len(),
        8 * seen.len() + 8 <= max_entries(),
        forall|at: IVec2| #[trigger]
            count_in(tallies(*old(counts)), at) == live_neighbors(seen, at),
        forall|at: IVec2| #[trigger]
            tallies(*old(counts)).contains_key(at) ==> tallies(*old(counts))[at] >= 1,
    ensures
        tallies(*final(counts)).dom().finite(),
        tallies(*final(counts)).dom().len() <= 8 * seen.len() + 8,
        forall|at: IVec2| #[trigger]
            count_in(tallies(*final(counts)), at) == live_neighbors(seen.insert(site), at),
        forall|at: IVec2| #[trigger]
            tallies(*final(counts)).contains_key(at) ==> tallies(*final(counts))[at] >= 1,
{
    let mut j: usize = 0;
    while j < 8
        invariant
            0 <= j <= 8,
            seen.finite(),
            tallies(*counts).dom().finite(),
            tallies(*counts).dom().len() <= 8 * seen.len() + j,
            8 * seen.len() + 8 <= max_entries(),
            forall|at: IVec2| #[trigger]
                count_in(tallies(*counts), at) == live_neighbors(seen, at) + hits(
                    site,
                    at,
                    j as int,
                ),
            forall|at: IVec2| #[trigger]
                tallies(*counts).contains_key(at) ==> tallies(*counts)[at] >= 1,
        decreases 8 - j,
    {
        let at = site.wrapping_add(neighbor_offset(j));
        let so_far: usize = match counts.get(&at) {
            Some(n) => n,
            None => 0,
        };
        let ghost before = tallies(*counts);
        proof {
            assert(so_far == count_in(before, at));
            lemma_live_among_bounds(seen, at, 8);
            lemma_hits_bounds(site, at, j as int);
        }
        counts.insert(&at, so_far + 1);
        proof {
            let after = tallies(*counts);
            assert(after.dom() =~= before.dom().insert(at));
            assert forall|k: IVec2| #[trigger]
                count_in(after, k) == live_neighbors(seen, k) + hits(site, k, j + 1) by {
                assert(count_in(before, k) == live_neighbors(seen, k) + hits(site, k, j as int));
            }
            assert forall|k: IVec2| #[trigger] after.contains_key(k) implies after[k] >= 1 by {
                if k != at {
                    assert(before.contains_key(k));
                }
            }
        }
        j = j + 1;
    }
    proof {
        assert forall|at: IVec2| #[trigger]
            count_in(tallies(*counts), at) == live_neighbors(seen.insert(site), at) by {
            lemma_live_among_insert(seen, site, at, 8);
            lemma_hits_symmetric(site, at);
        }
    }
}

/// Advances the lattice by one generation under `rule`.
///
/// The neighbour counts of the whole lattice are gathered first; only then
/// is the next lattice built, from the sites that survive and the sites
/// that are born.
pub fn step(lattice: &Lattice, rule: &Rule) -> (next: Lattice)
    requires
        lattice@.len() <= MAX_CELLS,
    ensures
        next@ == next_generation(lattice@, *rule),
{
    let cells = lattice.iter();
    proof {
        cells@.unique_seq_to_set();
    }
    let mut counts = NeighborCounts::with_capacity(cells.len());
    proof {
        assert(cells@.take(0).to_set() =~= Set::<IVec2>::empty());
        assert forall|at: IVec2| #[trigger]
            count_in(tallies(counts), at) == live_neighbors(cells@.take(0).to_set(), at) by {
            lemma_live_among_empty(at, 8);
        }
    }
    let mut i: usize = 0;
    while i < cells.len()
        invariant
            0 <= i <= cells.len(),
            cells@.no_duplicates(),
            cells@.len() <= MAX_CELLS,
            tallies(counts).dom().finite(),
            tallies(counts).dom().len() <= 8 * i,
            forall|at: IVec2| #[trigger]
                count_in(tallies(counts), at) == live_neighbors(cells@.take(i as int).to_set(), at),
            forall|at: IVec2| #[trigger]
                tallies(counts).contains_key(at) ==> tallies(counts)[at] >= 1,
        decreases cells.len() - i,
    {
        let ghost seen = cells@.take(i as int).to_set();
        proof {
            vstd::seq_lib::seq_to_set_is_finite(cells@.take(i as int));
            assert(cells@.take(i as int).no_duplicates());
            cells@.take(i as int).unique_seq_to_set();
            assert(!seen.contains(cells@[i as int])) by {
                if seen.contains(cells@[i as int]) {
                    let j = choose|j: int|
                        0 <= j < i && cells@.take(i as int)[j] == cells@[i as int];
                    assert(cells@[j] == cells@[i as int]);
                }
            }
            assert(cells@.take(i + 1).to_set() =~= seen.insert(cells@[i as int])) by {
                assert(cells@.take(i + 1) =~= cells@.take(i as int).push(cells@[i as int]));
                cells@.take(i as int).lemma_push_to_set_commute(cells@[i as int]);
            }
        }
        count_neighbors(&mut counts, cells[i], Ghost(seen));
        i = i + 1;
    }
    proof {
        assert(cells@.take(cells@.len() as int) =~= cells@);
    }
    let mut next = Lattice::new();
    let mut i: usize = 0;
    while i < cells.len()
        invariant
            0 <= i <= cells.len(),
            cells@.to_set() == lattice@,
            forall|at: IVec2| #[trigger]
                count_in(tallies(counts), at) == live_neighbors(lattice@, at),
            forall|at: IVec2| #[trigger]
                next@.contains(at) <==> in_prefix(cells@, i as int, at) && alive_next(
                    lattice@,
                    *rule,
                    at,
                ),
        decreases cells.len() - i,
    {
        let site = cells[i];
        let count: usize = match counts.get(&site) {
            Some(n) => n,
            None => 0,
        };
        proof {
            assert(count == count_in(tallies(counts), site));
            assert(lattice@.contains(site)) by {
                assert(cells@.contains(site));
            }
        }
        if count == rule.survive {
            next.insert(site);
        }
        proof {
            assert forall|at: IVec2| #[trigger]
                next@.contains(at) <==> in_prefix(cells@, i + 1, at) && alive_next(
                    lattice@,
                    *rule,
                    at,
                ) by {
                lemma_in_prefix_step(cells@, i as int, at);
            }
        }
        i = i + 1;
    }
    let sites = counts.keys();
    proof {
        assert forall|k: int| 0 <= k < sites@.len() implies tallies(counts).contains_key(
            #[trigger] sites@[k],
        ) by {
            assert(sites@.contains(sites@[k]));
        }
        assert forall|at: IVec2| #[trigger] tallies(counts).contains_key(at) implies in_prefix(
            sites@,
            sites@.len() as int,
            at,
        ) by {
            assert(sites@.contains(at));
            let k = choose|k: int| 0 <= k < sites@.len() && sites@[k] == at;
            assert(0 <= k < sites@.len() && k < sites@.len() && sites@[k] == at);
        }
        assert forall|at: IVec2| #[trigger]
            next@.contains(at) <==> alive_next(lattice@, *rule, at) && (lattice@.contains(at)
                || in_prefix(sites@, 0, at)) by {
            if lattice@.contains(at) {
                assert(cells@.contains(at));
                let k = choose|k: int| 0 <= k < cells@.len() && cells@[k] == at;
                assert(in_prefix(cells@, cells@.len() as int, at));
            }
        }
    }
    let mut j: usize = 0;
    while j < sites.len()
        invariant
            0 <= j <= sites.len(),
            forall|at: IVec2| #[trigger]
                count_in(tallies(counts), at) == live_neighbors(lattice@, at),
            forall|k: int|
                0 <= k < sites@.len() ==> tallies(counts).contains_key(#[trigger] sites@[k]),
            forall|at: IVec2| #[trigger]
                tallies(counts).contains_key(at) ==> tallies(counts)[at] >= 1,
            forall|at: IVec2| #[trigger]
                next@.contains(at) <==> alive_next(lattice@, *rule, at) && (lattice@.contains(at)
                    || in_prefix(sites@, j as int, at)),
        decreases sites.len() - j,
    {
        let site = sites[j];
        let count: usize = match counts.get(&site) {
            Some(n) => n,
            None => 0,
        };
        proof {
            assert(tallies(counts).contains_key(sites@[j as int]));
            assert(count == count_in(tallies(counts), site));
        }
        let dead = !lattice.contains(&site);
        if count == rule.birth && dead {
            next.insert(site);
        }
        proof {
            assert forall|at: IVec2| #[trigger]
                next@.contains(at) <==> alive_next(lattice@, *rule, at) && (lattice@.contains(at)
                    || in_prefix(sites@, j + 1, at)) by {
                lemma_in_prefix_step(sites@, j as int, at);
            }
        }
        j = j + 1;
    }
    proof {
        assert forall|at: IVec2| next@.contains(at) <==> alive_next(lattice@, *rule, at) by {
            if alive_next(lattice@, *rule, at) && !lattice@.contains(at) {
                assert(count_in(tallies(counts), at) > 0);
                assert(tallies(counts).contains_key(at));
            }
        }
        assert(next@ =~= next_generation(lattice@, *rule));
    }
    next
}

} // verus!
